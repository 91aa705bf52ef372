use vstd::prelude::*;
use vstd::bytes::{
    spec_u32_from_le_bytes, spec_u32_to_le_bytes, spec_u64_from_le_bytes, spec_u64_to_le_bytes,
    u32_from_le_bytes, u32_to_le_bytes, u64_from_le_bytes, u64_to_le_bytes,
    lemma_auto_spec_u32_to_from_le_bytes, lemma_auto_spec_u64_to_from_le_bytes,
};
use vstd::utf8::{decode_utf8, encode_utf8, valid_utf8, encode_utf8_decode_utf8, encode_utf8_valid_utf8};
use vstd::slice::{slice_subrange, slice_to_vec};
use crate::station::Station;
use crate::catalog::CacheError;

verus! {

/// The first byte of a cache record: the version of its layout.
pub const FORMAT_VERSION: u8 = 1;

/// Tags that open each field of a record.
pub const TAG_TEXT: u8 = 0;
pub const TAG_NUM: u8 = 1;
pub const TAG_FLAG: u8 = 2;

/// Number of fields that one station takes.
pub const STATION_FIELDS: usize = 19;

/// The value of one field, as the cache layout sees it.
pub enum FieldView {
    Text(Seq<char>),
    Num(u32),
    Flag(bool),
}

/// One field of a cache record.
#[derive(Debug, PartialEq, Eq)]
pub enum Field {
    Text(String),
    Num(u32),
    Flag(bool),
}

impl View for Field {
    type V = FieldView;

    open spec fn view(&self) -> FieldView {
        match self {
            Field::Text(s) => FieldView::Text(s@),
            Field::Num(n) => FieldView::Num(*n),
            Field::Flag(b) => FieldView::Flag(*b),
        }
    }
}

pub open spec fn views(fs: Seq<Field>) -> Seq<FieldView> {
    fs.map_values(|f: Field| f@)
}

/// The fields of a station, in the order in which the record holds them.
pub open spec fn station_fields(st: Station) -> Seq<FieldView> {
    seq![
        FieldView::Text(st.stationuuid@),
        FieldView::Text(st.changeuuid@),
        FieldView::Text(st.name@),
        FieldView::Text(st.url@),
        FieldView::Text(st.url_resolved@),
        FieldView::Text(st.homepage@),
        FieldView::Text(st.favicon@),
        FieldView::Text(st.tags@),
        FieldView::Text(st.country@),
        FieldView::Text(st.countrycode@),
        FieldView::Text(st.state@),
        FieldView::Text(st.language@),
        FieldView::Text(st.codec@),
        FieldView::Num(st.bitrate),
        FieldView::Num(st.votes),
        FieldView::Num(st.clickcount),
        FieldView::Flag(st.has_extended_info),
        FieldView::Text(st.last_change_time@),
        FieldView::Text(st.last_check_time@),
    ]
}

/// A run of fields has the kinds that a station's fields have.
pub open spec fn shaped(rec: Seq<FieldView>) -> bool {
    rec.len() == STATION_FIELDS
    && rec[0] is Text
    && rec[1] is Text
    && rec[2] is Text
    && rec[3] is Text
    && rec[4] is Text
    && rec[5] is Text
    && rec[6] is Text
    && rec[7] is Text
    && rec[8] is Text
    && rec[9] is Text
    && rec[10] is Text
    && rec[11] is Text
    && rec[12] is Text
    && rec[13] is Num
    && rec[14] is Num
    && rec[15] is Num
    && rec[16] is Flag
    && rec[17] is Text
    && rec[18] is Text
}

/// The fields of all stations of a list, station after station.
pub open spec fn concat_records(rs: Seq<Seq<FieldView>>) -> Seq<FieldView>
    decreases rs.len(),
{
    if rs.len() == 0 {
        Seq::empty()
    } else {
        concat_records(rs.drop_last()) + rs.last()
    }
}

pub open spec fn records_of(sts: Seq<Station>) -> Seq<Seq<FieldView>> {
    sts.map_values(|st: Station| station_fields(st))
}

/// The records that a run of fields falls into, one per station.
pub open spec fn chunks(fs: Seq<FieldView>) -> Seq<Seq<FieldView>> {
    Seq::new(
        (fs.len() / (STATION_FIELDS as nat)) as nat,
        |i: int| fs.subrange(i * STATION_FIELDS, i * STATION_FIELDS + STATION_FIELDS),
    )
}

pub open spec fn enc_field(f: FieldView) -> Seq<u8> {
    match f {
        FieldView::Text(s) => seq![TAG_TEXT] + spec_u64_to_le_bytes(encode_utf8(s).len() as u64)
            + encode_utf8(s),
        FieldView::Num(n) => seq![TAG_NUM] + spec_u32_to_le_bytes(n),
        FieldView::Flag(b) => seq![TAG_FLAG, if b { 1u8 } else { 0u8 }],
    }
}

pub open spec fn enc_fields(fs: Seq<FieldView>) -> Seq<u8>
    decreases fs.len(),
{
    if fs.len() == 0 {
        Seq::empty()
    } else {
        enc_fields(fs.drop_last()) + enc_field(fs.last())
    }
}

/// The cache record of a station list.
pub open spec fn enc_catalog(sts: Seq<Station>) -> Seq<u8> {
    seq![FORMAT_VERSION] + enc_fields(concat_records(records_of(sts)))
}

/// The field that starts at `pos`, and where the next one starts.
pub open spec fn parse_field(b: Seq<u8>, pos: int) -> Option<(FieldView, int)> {
    if pos < 0 || pos >= b.len() {
        None
    } else if b[pos] == TAG_TEXT {
        if pos + 9 > b.len() {
            None
        } else {
            let n = spec_u64_from_le_bytes(b.subrange(pos + 1, pos + 9)) as int;
            if pos + 9 + n > b.len() {
                None
            } else {
                let body = b.subrange(pos + 9, pos + 9 + n);
                if valid_utf8(body) {
                    Some((FieldView::Text(decode_utf8(body)), pos + 9 + n))
                } else {
                    None
                }
            }
        }
    } else if b[pos] == TAG_NUM {
        if pos + 5 > b.len() {
            None
        } else {
            Some((FieldView::Num(spec_u32_from_le_bytes(b.subrange(pos + 1, pos + 5))), pos + 5))
        }
    } else if b[pos] == TAG_FLAG {
        if pos + 2 > b.len() {
            None
        } else if b[pos + 1] == 0 {
            Some((FieldView::Flag(false), pos + 2))
        } else if b[pos + 1] == 1 {
            Some((FieldView::Flag(true), pos + 2))
        } else {
            None
        }
    } else {
        None
    }
}

/// All fields from `pos` to the end of `b`, or `None` where they do not parse.
pub open spec fn parse_fields(b: Seq<u8>, pos: int) -> Option<Seq<FieldView>>
    decreases b.len() - pos,
{
    if pos == b.len() {
        Some(Seq::empty())
    } else if pos < 0 || pos > b.len() {
        None
    } else {
        match parse_field(b, pos) {
            Some((f, p)) => if pos < p && p <= b.len() {
                match parse_fields(b, p) {
                    Some(rest) => Some(seq![f] + rest),
                    None => None,
                }
            } else {
                None
            },
            None => None,
        }
    }
}

/// `b` is a well-formed cache record.
pub open spec fn decodable(b: Seq<u8>) -> bool {
    &&& b.len() > 0
    &&& b[0] == FORMAT_VERSION
    &&& parse_fields(b, 1) is Some
    &&& parse_fields(b, 1)->0.len() % (STATION_FIELDS as nat) == 0
    &&& forall|i: int| 0 <= i < chunks(parse_fields(b, 1)->0).len() ==> shaped(
        #[trigger] chunks(parse_fields(b, 1)->0)[i],
    )
}

/// The station records that a well-formed cache record holds.
pub open spec fn decoded_records(b: Seq<u8>) -> Seq<Seq<FieldView>> {
    chunks(parse_fields(b, 1)->0)
}

/// The encoded length of a text field fits its 64-bit length prefix.
pub open spec fn field_fits(f: FieldView) -> bool {
    f is Text ==> encode_utf8(f->Text_0).len() <= u64::MAX
}

/// Every text of a station fits the record's length fields.
pub open spec fn station_fits(st: Station) -> bool {
    forall|k: int| 0 <= k < STATION_FIELDS ==> field_fits(#[trigger] station_fields(st)[k])
}

/// Relies on String::from_utf8: a string exactly when the bytes are valid UTF-8.
#[verifier::external_body]
fn string_from_utf8(v: Vec<u8>) -> (r: Option<String>)
    ensures
        r is Some <==> valid_utf8(v@),
        r is Some ==> r->0@ == decode_utf8(v@),
{
    String::from_utf8(v).ok()
}

/// The fields of `st`, in record order.
pub fn station_to_fields(st: &Station) -> (r: Vec<Field>)
    ensures
        views(r@) == station_fields(*st),
{
    let mut fs: Vec<Field> = Vec::new();
    fs.push(Field::Text(st.stationuuid.clone()));
    fs.push(Field::Text(st.changeuuid.clone()));
    fs.push(Field::Text(st.name.clone()));
    fs.push(Field::Text(st.url.clone()));
    fs.push(Field::Text(st.url_resolved.clone()));
    fs.push(Field::Text(st.homepage.clone()));
    fs.push(Field::Text(st.favicon.clone()));
    fs.push(Field::Text(st.tags.clone()));
    fs.push(Field::Text(st.country.clone()));
    fs.push(Field::Text(st.countrycode.clone()));
    fs.push(Field::Text(st.state.clone()));
    fs.push(Field::Text(st.language.clone()));
    fs.push(Field::Text(st.codec.clone()));
    fs.push(Field::Num(st.bitrate));
    fs.push(Field::Num(st.votes));
    fs.push(Field::Num(st.clickcount));
    fs.push(Field::Flag(st.has_extended_info));
    fs.push(Field::Text(st.last_change_time.clone()));
    fs.push(Field::Text(st.last_check_time.clone()));
    proof {
        assert(views(fs@) =~= station_fields(*st));
    }
    fs
}

fn text_at(fields: &Vec<Field>, i: usize) -> (r: Option<String>)
    requires
        i < fields@.len(),
    ensures
        r is Some <==> fields@[i as int]@ is Text,
        r is Some ==> fields@[i as int]@ == FieldView::Text(r->0@),
{
    match &fields[i] {
        Field::Text(s) => Some(s.clone()),
        _ => None,
    }
}

fn num_at(fields: &Vec<Field>, i: usize) -> (r: Option<u32>)
    requires
        i < fields@.len(),
    ensures
        r is Some <==> fields@[i as int]@ is Num,
        r is Some ==> fields@[i as int]@ == FieldView::Num(r->0),
{
    match &fields[i] {
        Field::Num(n) => Some(*n),
        _ => None,
    }
}

fn flag_at(fields: &Vec<Field>, i: usize) -> (r: Option<bool>)
    requires
        i < fields@.len(),
    ensures
        r is Some <==> fields@[i as int]@ is Flag,
        r is Some ==> fields@[i as int]@ == FieldView::Flag(r->0),
{
    match &fields[i] {
        Field::Flag(b) => Some(*b),
        _ => None,
    }
}

/// The station whose fields stand at `start`, where they have a station's kinds.
pub fn station_from_fields(fields: &Vec<Field>, start: usize) -> (r: Option<Station>)
    requires
        start + STATION_FIELDS <= fields@.len(),
    ensures
        r is Some <==> shaped(views(fields@).subrange(start as int, start + STATION_FIELDS)),
        r is Some ==> station_fields(r->0) == views(fields@).subrange(
            start as int,
            start + STATION_FIELDS,
        ),
{
    let ghost rec = views(fields@).subrange(start as int, start + STATION_FIELDS);
    let total = fields.len();
    assert(STATION_FIELDS == 19);
    assert(start + 19 <= total);
    let stationuuid = match text_at(fields, start + 0) {
        Some(v) => v,
        None => return None,
    };
    let changeuuid = match text_at(fields, start + 1) {
        Some(v) => v,
        None => return None,
    };
    let name = match text_at(fields, start + 2) {
        Some(v) => v,
        None => return None,
    };
    let url = match text_at(fields, start + 3) {
        Some(v) => v,
        None => return None,
    };
    let url_resolved = match text_at(fields, start + 4) {
        Some(v) => v,
        None => return None,
    };
    let homepage = match text_at(fields, start + 5) {
        Some(v) => v,
        None => return None,
    };
    let favicon = match text_at(fields, start + 6) {
        Some(v) => v,
        None => return None,
    };
    let tags = match text_at(fields, start + 7) {
        Some(v) => v,
        None => return None,
    };
    let country = match text_at(fields, start + 8) {
        Some(v) => v,
        None => return None,
    };
    let countrycode = match text_at(fields, start + 9) {
        Some(v) => v,
        None => return None,
    };
    let state = match text_at(fields, start + 10) {
        Some(v) => v,
        None => return None,
    };
    let language = match text_at(fields, start + 11) {
        Some(v) => v,
        None => return None,
    };
    let codec = match text_at(fields, start + 12) {
        Some(v) => v,
        None => return None,
    };
    let bitrate = match num_at(fields, start + 13) {
        Some(v) => v,
        None => return None,
    };
    let votes = match num_at(fields, start + 14) {
        Some(v) => v,
        None => return None,
    };
    let clickcount = match num_at(fields, start + 15) {
        Some(v) => v,
        None => return None,
    };
    let has_extended_info = match flag_at(fields, start + 16) {
        Some(v) => v,
        None => return None,
    };
    let last_change_time = match text_at(fields, start + 17) {
        Some(v) => v,
        None => return None,
    };
    let last_check_time = match text_at(fields, start + 18) {
        Some(v) => v,
        None => return None,
    };
    let st = Station {
        stationuuid,
        changeuuid,
        name,
        url,
        url_resolved,
        homepage,
        favicon,
        tags,
        country,
        countrycode,
        state,
        language,
        codec,
        bitrate,
        votes,
        clickcount,
        has_extended_info,
        last_change_time,
        last_check_time,
    };
    proof {
        assert(station_fields(st) =~= rec);
    }
    Some(st)
}


/// The field that starts at `pos` of `b`, and where the next one starts.
fn read_field(b: &Vec<u8>, pos: usize) -> (r: Option<(Field, usize)>)
    ensures
        match parse_field(b@, pos as int) {
            Some((f, p)) => r is Some && (r->0).0@ == f && (r->0).1 as int == p,
            None => r is None,
        },
{
    let len = b.len();
    if pos >= len {
        return None;
    }
    let tag = b[pos];
    if tag == TAG_TEXT {
        if len - pos < 9 {
            return None;
        }
        let n = u64_from_le_bytes(slice_subrange(b.as_slice(), pos + 1, pos + 9));
        let avail = (len - pos - 9) as u64;
        if n > avail {
            return None;
        }
        let start = pos + 9;
        let end = start + n as usize;
        let body = slice_to_vec(slice_subrange(b.as_slice(), start, end));
        match string_from_utf8(body) {
            Some(text) => Some((Field::Text(text), end)),
            None => None,
        }
    } else if tag == TAG_NUM {
        if len - pos < 5 {
            return None;
        }
        let n = u32_from_le_bytes(slice_subrange(b.as_slice(), pos + 1, pos + 5));
        Some((Field::Num(n), pos + 5))
    } else if tag == TAG_FLAG {
        if len - pos < 2 {
            return None;
        }
        let v = b[pos + 1];
        if v == 0 {
            Some((Field::Flag(false), pos + 2))
        } else if v == 1 {
            Some((Field::Flag(true), pos + 2))
        } else {
            None
        }
    } else {
        None
    }
}

/// Appends the encoding of `f` to `out`.
fn write_field(out: &mut Vec<u8>, f: &Field)
    ensures
        final(out)@ == old(out)@ + enc_field(f@),
{
    match f {
        Field::Text(text) => {
            let bytes = text.as_str().as_bytes();
            out.push(TAG_TEXT);
            let mut len_bytes = u64_to_le_bytes(bytes.len() as u64);
            out.append(&mut len_bytes);
            let mut body = slice_to_vec(bytes);
            out.append(&mut body);
        },
        Field::Num(n) => {
            out.push(TAG_NUM);
            let mut num_bytes = u32_to_le_bytes(*n);
            out.append(&mut num_bytes);
        },
        Field::Flag(b) => {
            out.push(TAG_FLAG);
            out.push(if *b { 1u8 } else { 0u8 });
        },
    }
    proof {
        assert(final(out)@ =~= old(out)@ + enc_field(f@));
    }
}

proof fn lemma_enc_fields_append(a: Seq<FieldView>, b: Seq<FieldView>)
    ensures
        enc_fields(a + b) == enc_fields(a) + enc_fields(b),
    decreases b.len(),
{
    if b.len() == 0 {
        assert(a + b =~= a);
        assert(enc_fields(a) + enc_fields(b) =~= enc_fields(a));
    } else {
        lemma_enc_fields_append(a, b.drop_last());
        assert((a + b).drop_last() =~= a + b.drop_last());
        assert((a + b).last() == b.last());
        assert(enc_fields(a + b) =~= enc_fields(a) + enc_fields(b));
    }
}

/// The cache record of `stations`: the layout version, then the fields of
/// each station in order.
pub fn encode_catalog(stations: &Vec<Station>) -> (r: Vec<u8>)
    ensures
        r@ == enc_catalog(stations@),
{
    let mut out: Vec<u8> = Vec::new();
    out.push(FORMAT_VERSION);
    let mut i: usize = 0;
    while i < stations.len()
        invariant
            i <= stations@.len(),
            out@ == seq![FORMAT_VERSION] + enc_fields(
                concat_records(records_of(stations@.subrange(0, i as int))),
            ),
        decreases stations@.len() - i,
    {
        let fs = station_to_fields(&stations[i]);
        let ghost base = out@;
        let mut j: usize = 0;
        while j < fs.len()
            invariant
                j <= fs@.len(),
                out@ == base + enc_fields(views(fs@).subrange(0, j as int)),
            decreases fs@.len() - j,
        {
            write_field(&mut out, &fs[j]);
            proof {
                let pre = views(fs@).subrange(0, j as int);
                let next = views(fs@).subrange(0, j + 1);
                assert(next.drop_last() =~= pre);
                assert(next.last() == fs@[j as int]@);
                assert(out@ =~= base + enc_fields(next));
            }
            j = j + 1;
        }
        proof {
            let done = stations@.subrange(0, i as int);
            let more = stations@.subrange(0, i + 1);
            assert(views(fs@).subrange(0, fs@.len() as int) =~= views(fs@));
            assert(records_of(more).drop_last() =~= records_of(done));
            assert(records_of(more).last() == station_fields(stations@[i as int]));
            lemma_enc_fields_append(concat_records(records_of(done)), station_fields(stations@[i as int]));
            assert(out@ =~= seq![FORMAT_VERSION] + enc_fields(concat_records(records_of(more))));
        }
        i = i + 1;
    }
    proof {
        assert(stations@.subrange(0, stations@.len() as int) =~= stations@);
    }
    out
}

/// Reads a cache record back into its stations. A record that is not
/// well-formed is `Corrupt`.
pub fn decode_catalog(bytes: &Vec<u8>) -> (r: Result<Vec<Station>, CacheError>)
    ensures
        r is Ok <==> decodable(bytes@),
        r is Err ==> r->Err_0 == CacheError::Corrupt,
        r is Ok ==> records_of(r->Ok_0@) == decoded_records(bytes@),
{
    if bytes.len() == 0 || bytes[0] != FORMAT_VERSION {
        return Err(CacheError::Corrupt);
    }
    let mut fields: Vec<Field> = Vec::new();
    let mut pos: usize = 1;
    while pos < bytes.len()
        invariant
            1 <= pos <= bytes@.len(),
            parse_fields(bytes@, 1) == (match parse_fields(bytes@, pos as int) {
                Some(rest) => Some(views(fields@) + rest),
                None => None::<Seq<FieldView>>,
            }),
        decreases bytes@.len() - pos,
    {
        match read_field(bytes, pos) {
            Some((f, p)) => {
                proof {
                    assert(views(fields@.push(f)) =~= views(fields@).push(f@));
                    match parse_fields(bytes@, p as int) {
                        Some(rest) => {
                            assert(views(fields@) + (seq![f@] + rest) =~= views(fields@).push(f@)
                                + rest);
                        },
                        None => {},
                    }
                }
                fields.push(f);
                pos = p;
            },
            None => {
                return Err(CacheError::Corrupt);
            },
        }
    }
    proof {
        assert(views(fields@) + Seq::<FieldView>::empty() =~= views(fields@));
    }
    let total = fields.len();
    if total % STATION_FIELDS != 0 {
        return Err(CacheError::Corrupt);
    }
    let count = total / STATION_FIELDS;
    let ghost recs = chunks(views(fields@));
    let mut out: Vec<Station> = Vec::new();
    let mut i: usize = 0;
    while i < count
        invariant
            i <= count,
            count == total / STATION_FIELDS,
            total == fields@.len(),
            total % STATION_FIELDS == 0,
            recs == chunks(views(fields@)),
            recs.len() == count,
            parse_fields(bytes@, 1) == Some(views(fields@)),
            bytes@.len() > 0,
            bytes@[0] == FORMAT_VERSION,
            out@.len() == i,
            forall|j: int| 0 <= j < i ==> station_fields(#[trigger] out@[j]) == recs[j],
            forall|j: int| 0 <= j < i ==> shaped(#[trigger] recs[j]),
        decreases count - i,
    {
        assert(i * 19 + 19 <= total) by (nonlinear_arith)
            requires
                i < count,
                count == total / 19,
            ;
        let start = i * STATION_FIELDS;
        match station_from_fields(&fields, start) {
            Some(st) => {
                out.push(st);
            },
            None => {
                proof {
                    assert(recs[i as int] == views(fields@).subrange(
                        start as int,
                        start + STATION_FIELDS,
                    ));
                    assert(!shaped(chunks(parse_fields(bytes@, 1)->0)[i as int]));
                }
                return Err(CacheError::Corrupt);
            },
        }
        i = i + 1;
    }
    proof {
        assert(records_of(out@) =~= recs);
    }
    Ok(out)
}


proof fn lemma_parse_enc_field(b: Seq<u8>, pos: int, f: FieldView)
    requires
        0 <= pos,
        pos + enc_field(f).len() <= b.len(),
        b.subrange(pos, pos + enc_field(f).len()) == enc_field(f),
        field_fits(f),
    ensures
        parse_field(b, pos) == Some((f, pos + enc_field(f).len())),
        enc_field(f).len() >= 2,
{
    lemma_auto_spec_u64_to_from_le_bytes();
    lemma_auto_spec_u32_to_from_le_bytes();
    let e = enc_field(f);
    let sub = b.subrange(pos, pos + e.len());
    assert(sub == e);
    assert(b[pos] == sub[0]);
    match f {
        FieldView::Text(text) => {
            let body = encode_utf8(text);
            let n = body.len() as u64;
            let lb = spec_u64_to_le_bytes(n);
            assert(n as int == body.len());
            assert(lb.len() == 8);
            assert(e == seq![TAG_TEXT] + lb + body);
            assert(e.len() == 9 + body.len());
            assert(b.subrange(pos + 1, pos + 9) =~= sub.subrange(1, 9));
            assert(sub.subrange(1, 9) =~= lb);
            assert(b.subrange(pos + 9, pos + 9 + body.len()) =~= sub.subrange(9, 9 + body.len() as int));
            assert(sub.subrange(9, 9 + body.len() as int) =~= body);
            encode_utf8_valid_utf8(text);
            encode_utf8_decode_utf8(text);
        },
        FieldView::Num(v) => {
            let lb = spec_u32_to_le_bytes(v);
            assert(lb.len() == 4);
            assert(e == seq![TAG_NUM] + lb);
            assert(b.subrange(pos + 1, pos + 5) =~= sub.subrange(1, 5));
            assert(sub.subrange(1, 5) =~= lb);
        },
        FieldView::Flag(v) => {
            assert(b[pos + 1] == sub[1]);
        },
    }
}

proof fn lemma_parse_enc_fields(b: Seq<u8>, pos: int, fs: Seq<FieldView>)
    requires
        0 <= pos <= b.len(),
        b.subrange(pos, b.len() as int) == enc_fields(fs),
        forall|k: int| 0 <= k < fs.len() ==> field_fits(#[trigger] fs[k]),
    ensures
        parse_fields(b, pos) == Some(fs),
    decreases fs.len(),
{
    if fs.len() == 0 {
        assert(b.subrange(pos, b.len() as int).len() == 0);
        assert(fs =~= Seq::<FieldView>::empty());
    } else {
        let f = fs[0];
        let rest = fs.drop_first();
        assert(seq![f] + rest =~= fs);
        lemma_enc_fields_append(seq![f], rest);
        assert(seq![f].drop_last() =~= Seq::<FieldView>::empty());
        reveal_with_fuel(enc_fields, 2);
        assert(enc_fields(seq![f]) =~= enc_field(f));
        let l = enc_field(f).len() as int;
        let tail = b.subrange(pos, b.len() as int);
        assert(enc_fields(fs) == enc_field(f) + enc_fields(rest));
        assert(tail == enc_field(f) + enc_fields(rest));
        assert(tail.len() >= l);
        assert(b.subrange(pos, pos + l) =~= tail.subrange(0, l));
        assert(tail.subrange(0, l) =~= enc_field(f));
        lemma_parse_enc_field(b, pos, f);
        assert(b.subrange(pos + l, b.len() as int) =~= tail.subrange(l, tail.len() as int));
        assert(tail.subrange(l, tail.len() as int) =~= enc_fields(rest));
        assert forall|k: int| 0 <= k < rest.len() implies field_fits(#[trigger] rest[k]) by {
            assert(rest[k] == fs[k + 1]);
        }
        lemma_parse_enc_fields(b, pos + l, rest);
    }
}

proof fn lemma_concat_records(rs: Seq<Seq<FieldView>>)
    requires
        forall|i: int| 0 <= i < rs.len() ==> (#[trigger] rs[i]).len() == STATION_FIELDS,
    ensures
        concat_records(rs).len() == STATION_FIELDS * rs.len(),
        chunks(concat_records(rs)) == rs,
    decreases rs.len(),
{
    if rs.len() > 0 {
        let front = rs.drop_last();
        lemma_concat_records(front);
        let c = concat_records(rs);
        let cf = concat_records(front);
        let n = rs.len() as int;
        assert(c.len() == STATION_FIELDS * n);
        assert(c.len() / (STATION_FIELDS as nat) == n) by (nonlinear_arith)
            requires
                c.len() == 19 * n,
                n > 0,
        ;
        assert forall|i: int| 0 <= i < n implies #[trigger] chunks(c)[i] == rs[i] by {
            if i < n - 1 {
                assert(i * 19 + 19 <= 19 * (n - 1)) by (nonlinear_arith)
                    requires
                        i < n - 1,
                ;
                assert(c.subrange(i * 19, i * 19 + 19) =~= cf.subrange(i * 19, i * 19 + 19));
                assert(chunks(cf)[i] == front[i]);
            } else {
                assert(c.subrange(i * 19, i * 19 + 19) =~= rs.last());
            }
        }
        assert(chunks(c) =~= rs);
    } else {
        assert(chunks(concat_records(rs)) =~= rs);
    }
}

proof fn lemma_concat_fits(sts: Seq<Station>)
    requires
        forall|i: int| 0 <= i < sts.len() ==> station_fits(#[trigger] sts[i]),
    ensures
        forall|k: int|
            0 <= k < concat_records(records_of(sts)).len() ==> field_fits(
                #[trigger] concat_records(records_of(sts))[k],
            ),
    decreases sts.len(),
{
    if sts.len() > 0 {
        let front = sts.drop_last();
        assert forall|i: int| 0 <= i < front.len() implies station_fits(#[trigger] front[i]) by {
            assert(front[i] == sts[i]);
        }
        lemma_concat_fits(front);
        assert(records_of(sts).drop_last() =~= records_of(front));
        let c = concat_records(records_of(sts));
        let cf = concat_records(records_of(front));
        let last = station_fields(sts.last());
        assert(c == cf + last);
        assert(station_fits(sts[sts.len() - 1]));
        assert forall|k: int| 0 <= k < c.len() implies field_fits(#[trigger] c[k]) by {
            if k < cf.len() {
                assert(c[k] == cf[k]);
            } else {
                assert(c[k] == last[k - cf.len()]);
            }
        }
    }
}

/// Saving a station list and loading it back gives the same stations, field
/// for field, for every list, the empty one included; and a list loaded back
/// saves to the very same record, so saving again changes nothing.
pub proof fn lemma_cache_round_trip(sts: Seq<Station>)
    requires
        forall|i: int| 0 <= i < sts.len() ==> station_fits(#[trigger] sts[i]),
    ensures
        decodable(enc_catalog(sts)),
        decoded_records(enc_catalog(sts)) == records_of(sts),
        forall|other: Seq<Station>|
            records_of(other) == records_of(sts) ==> #[trigger] enc_catalog(other) == enc_catalog(
                sts,
            ),
{
    let rs = records_of(sts);
    let fs = concat_records(rs);
    let b = enc_catalog(sts);
    lemma_concat_fits(sts);
    assert(b.subrange(1, b.len() as int) =~= enc_fields(fs));
    lemma_parse_enc_fields(b, 1, fs);
    assert(parse_fields(b, 1) == Some(fs));
    assert forall|i: int| 0 <= i < rs.len() implies (#[trigger] rs[i]).len() == STATION_FIELDS by {
        assert(rs[i] == station_fields(sts[i]));
    }
    lemma_concat_records(rs);
    assert(fs.len() % (STATION_FIELDS as nat) == 0) by (nonlinear_arith)
        requires
            fs.len() == 19 * rs.len(),
    ;
    assert forall|i: int| 0 <= i < chunks(fs).len() implies shaped(#[trigger] chunks(fs)[i]) by {
        assert(chunks(fs)[i] == station_fields(sts[i]));
    }
}

} // verus!
