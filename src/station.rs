use vstd::prelude::*;

verus! {

/// One entry of the radio catalog, holding the directory's fields as plain values.
#[derive(Debug, PartialEq, Eq)]
pub struct Station {
    pub stationuuid: String,
    pub changeuuid: String,
    pub name: String,
    pub url: String,
    pub url_resolved: String,
    pub homepage: String,
    pub favicon: String,
    pub tags: String,
    pub country: String,
    pub countrycode: String,
    pub state: String,
    pub language: String,
    pub codec: String,
    pub bitrate: u32,
    pub votes: u32,
    pub clickcount: u32,
    pub has_extended_info: bool,
    pub last_change_time: String,
    pub last_check_time: String,
}

impl Clone for Station {
    fn clone(&self) -> (r: Self)
        ensures
            r == *self,
    {
        Station {
            stationuuid: self.stationuuid.clone(),
            changeuuid: self.changeuuid.clone(),
            name: self.name.clone(),
            url: self.url.clone(),
            url_resolved: self.url_resolved.clone(),
            homepage: self.homepage.clone(),
            favicon: self.favicon.clone(),
            tags: self.tags.clone(),
            country: self.country.clone(),
            countrycode: self.countrycode.clone(),
            state: self.state.clone(),
            language: self.language.clone(),
            codec: self.codec.clone(),
            bitrate: self.bitrate,
            votes: self.votes,
            clickcount: self.clickcount,
            has_extended_info: self.has_extended_info,
            last_change_time: self.last_change_time.clone(),
            last_check_time: self.last_check_time.clone(),
        }
    }
}

/// `q` occurs in `s` as a contiguous run of characters.
pub open spec fn contains_seq(s: Seq<char>, q: Seq<char>) -> bool {
    exists|i: int| 0 <= i && i + q.len() <= s.len() && #[trigger] s.subrange(i, i + q.len()) == q
}

/// A station can be played only when its resolved stream URL is known.
pub open spec fn playable(st: Station) -> bool {
    st.url_resolved@.len() > 0
}

/// The filter relation: an empty query matches everything, otherwise the
/// query must occur verbatim in the name or in the tags.
pub open spec fn station_matches(st: Station, q: Seq<char>) -> bool {
    q.len() == 0 || contains_seq(st.name@, q) || contains_seq(st.tags@, q)
}

pub open spec fn lower_ascii_char(c: char) -> char {
    if 'A' <= c && c <= 'Z' {
        ((c as u32) + 32) as char
    } else {
        c
    }
}

/// Every ASCII capital letter replaced by its small letter; other characters kept.
pub open spec fn lower_ascii(s: Seq<char>) -> Seq<char> {
    s.map_values(|c: char| lower_ascii_char(c))
}

/// What `str::trim` leaves of a string: it removes leading and trailing
/// Unicode white space.
pub uninterp spec fn trimmed(s: Seq<char>) -> Seq<char>;

/// The first column of a row: the lower-cased, trimmed name, or the resolved
/// URL where the name is empty.
pub open spec fn display_label(st: Station) -> Seq<char> {
    trimmed(lower_ascii(if st.name@.len() == 0 { st.url_resolved@ } else { st.name@ }))
}

/// A row of the station list: label, region, country and tags, separated by `|`.
pub open spec fn display_row(st: Station) -> Seq<char> {
    display_label(st) + seq!['|'] + st.state@ + seq!['|'] + st.country@ + seq!['|'] + st.tags@
}

/// Relies on str::contains with a `&str` pattern: true exactly when the
/// pattern occurs in the string.
#[verifier::external_body]
fn str_contains(s: &str, q: &str) -> (r: bool)
    ensures
        r == contains_seq(s@, q@),
{
    s.contains(q)
}

/// Relies on str::to_ascii_lowercase: maps `A`..=`Z` to `a`..=`z`, keeps the rest.
#[verifier::external_body]
fn ascii_lowercase(s: &str) -> (r: String)
    ensures
        r@ == lower_ascii(s@),
{
    s.to_ascii_lowercase()
}

/// Relies on str::trim: the string without leading and trailing white space.
#[verifier::external_body]
fn trim_whitespace(s: &str) -> (r: String)
    ensures
        r@ == trimmed(s@),
{
    s.trim().to_string()
}

impl Station {
    /// True iff the station has a resolved stream URL.
    pub fn is_playable(&self) -> (r: bool)
        ensures
            r == playable(*self),
    {
        !self.url_resolved.as_str().is_empty()
    }

    /// True iff the station passes the filter `query`.
    pub fn matches(&self, query: &str) -> (r: bool)
        ensures
            r == station_matches(*self, query@),
    {
        query.is_empty() || str_contains(self.name.as_str(), query) || str_contains(
            self.tags.as_str(),
            query,
        )
    }
}

/// The row shown for `station` in the list view.
pub fn format_station(station: &Station) -> (r: String)
    ensures
        r@ == display_row(*station),
{
    let lowered = if station.name.as_str().is_empty() {
        ascii_lowercase(station.url_resolved.as_str())
    } else {
        ascii_lowercase(station.name.as_str())
    };
    let mut row = trim_whitespace(lowered.as_str());
    let sep = "|";
    proof {
        reveal_strlit("|");
    }
    row.append(sep);
    row.append(station.state.as_str());
    row.append(sep);
    row.append(station.country.as_str());
    row.append(sep);
    row.append(station.tags.as_str());
    row
}

} // verus!
