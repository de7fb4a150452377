use vstd::prelude::*;

use crate::digits::{
    parse_decimal_u32, parse_hex_u32, parsed_decimal_u32, parsed_hex_u32,
};
use crate::text::{
    chars_of, find_from, find_from_exec, lemma_find_from, occurs_at, occurs_at_exec, sub_vec,
};

verus! {

/// One tagged field of the metadata protocol, as it arrives on the wire.
pub struct MetadataItem {
    /// The namespace, a four-letter tag such as `core`.
    pub type_code: u32,
    /// The field within the namespace, a four-letter tag such as `minm`.
    pub field_code: u32,
    /// The declared byte length of the payload (informational only).
    pub length: u32,
    /// The payload, still base64-encoded; absent for empty fields.
    pub payload: Option<String>,
}

/// The mathematical value of a [`MetadataItem`].
pub struct ItemView {
    pub type_code: u32,
    pub field_code: u32,
    pub length: u32,
    pub payload: Option<Seq<char>>,
}

pub open spec fn opt_view(p: Option<String>) -> Option<Seq<char>> {
    match p {
        Some(s) => Some(s@),
        None => None,
    }
}

impl View for MetadataItem {
    type V = ItemView;

    open spec fn view(&self) -> ItemView {
        ItemView {
            type_code: self.type_code,
            field_code: self.field_code,
            length: self.length,
            payload: opt_view(self.payload),
        }
    }
}

/// The tag that opens an item: `<item>`.
pub open spec fn item_open() -> Seq<char> {
    seq!['<', 'i', 't', 'e', 'm', '>']
}

/// The tag that closes an item: `</item>`.
pub open spec fn item_close() -> Seq<char> {
    seq!['<', '/', 'i', 't', 'e', 'm', '>']
}

pub open spec fn type_tag_name() -> Seq<char> {
    seq!['t', 'y', 'p', 'e']
}

pub open spec fn code_name() -> Seq<char> {
    seq!['c', 'o', 'd', 'e']
}

pub open spec fn length_name() -> Seq<char> {
    seq!['l', 'e', 'n', 'g', 't', 'h']
}

pub open spec fn data_name() -> Seq<char> {
    seq!['d', 'a', 't', 'a']
}

/// The start of an opening tag for the element `name`, which attributes
/// may follow before its `>`.
pub open spec fn open_prefix(name: Seq<char>) -> Seq<char> {
    seq!['<'] + name
}

/// The closing tag of the element `name`.
pub open spec fn close_tag(name: Seq<char>) -> Seq<char> {
    seq!['<', '/'] + name + seq!['>']
}

/// The character at `k` ends a tag name: it is `>` or white space.
pub open spec fn ends_tag_name(body: Seq<char>, k: int) -> bool {
    0 <= k < body.len() && (body[k] == '>' || body[k] == ' ' || body[k] == '\t' || body[k] == '\n'
        || body[k] == '\r')
}

/// The first position at or after `from` where an opening tag of the
/// element `name` starts: `<`, the name, then `>` or white space.
pub open spec fn find_open_tag(body: Seq<char>, name: Seq<char>, from: int) -> Option<int>
    decreases body.len() + 1 - from,
{
    if from < 0 || from > body.len() {
        None
    } else if occurs_at(body, open_prefix(name), from) && ends_tag_name(body, from + name.len() + 1) {
        Some(from)
    } else {
        find_open_tag(body, name, from + 1)
    }
}

/// The text of the first element `name` in `body`: from the `>` that ends
/// its opening tag up to the closing tag that follows.
pub open spec fn element_text(body: Seq<char>, name: Seq<char>) -> Option<Seq<char>> {
    match find_open_tag(body, name, 0) {
        None => None,
        Some(i) => match find_from(body, seq!['>'], i + name.len() + 1) {
            None => None,
            Some(k) => match find_from(body, close_tag(name), k + 1) {
                None => None,
                Some(j) => Some(body.subrange(k + 1, j)),
            },
        },
    }
}

/// The item that the body of an `<item>` element describes: its `type`
/// and `code` must be hexadecimal tags and its `length` a decimal number;
/// its `data`, if any, is the payload.
pub open spec fn item_of(body: Seq<char>) -> Option<ItemView> {
    match (
        element_text(body, type_tag_name()),
        element_text(body, code_name()),
        element_text(body, length_name()),
    ) {
        (Some(t), Some(c), Some(l)) => match (
            parsed_hex_u32(t),
            parsed_hex_u32(c),
            parsed_decimal_u32(l),
        ) {
            (Some(tc), Some(fc), Some(n)) => Some(
                ItemView {
                    type_code: tc,
                    field_code: fc,
                    length: n,
                    payload: element_text(body, data_name()),
                },
            ),
            _ => None,
        },
        _ => None,
    }
}

/// The well-formed items of the `<item>…</item>` elements of `s` that
/// start at or after `from`, in order; a malformed one is left out.
pub open spec fn items_from(s: Seq<char>, from: int) -> Seq<ItemView>
    decreases s.len() + 1 - from,
    via items_from_decreases
{
    if from < 0 {
        Seq::empty()
    } else {
        match find_from(s, item_open(), from) {
            None => Seq::empty(),
            Some(i) => match find_from(s, item_close(), i + 6) {
                None => Seq::empty(),
                Some(j) => {
                    let rest = items_from(s, j + 7);
                    match item_of(s.subrange(i + 6, j)) {
                        Some(it) => seq![it] + rest,
                        None => rest,
                    }
                },
            },
        }
    }
}

#[via_fn]
proof fn items_from_decreases(s: Seq<char>, from: int) {
    lemma_find_from(s, item_open(), from);
    if let Some(i) = find_from(s, item_open(), from) {
        lemma_find_from(s, item_close(), i + 6);
    }
}

/// The items of a whole record.
pub open spec fn record_items(s: Seq<char>) -> Seq<ItemView> {
    items_from(s, 0)
}

fn concat_chars(a: &Vec<char>, b: &Vec<char>) -> (r: Vec<char>)
    ensures
        r@ == a@ + b@,
{
    let mut out = a.clone();
    let mut i: usize = 0;
    while i < b.len()
        invariant
            i <= b.len(),
            out@ == a@ + b@.take(i as int),
        decreases b.len() - i,
    {
        out.push(b[i]);
        i = i + 1;
        assert(out@ =~= a@ + b@.take(i as int));
    }
    assert(b@.take(b.len() as int) =~= b@);
    out
}

/// The first position at or after `from` where an opening tag of the
/// element `name`, whose start `open` spells, begins in `body`.
fn find_open_tag_exec(body: &Vec<char>, name: &Vec<char>, open: &Vec<char>, from: usize) -> (r:
    Option<usize>)
    requires
        open@ == open_prefix(name@),
    ensures
        match r {
            Some(i) => find_open_tag(body@, name@, from as int) == Some(i as int),
            None => find_open_tag(body@, name@, from as int) is None,
        },
        r matches Some(i) ==> i + open.len() < body.len(),
{
    let mut i: usize = from;
    while i < body.len()
        invariant
            open@ == open_prefix(name@),
            find_open_tag(body@, name@, from as int) == find_open_tag(body@, name@, i as int),
        decreases body.len() - i,
    {
        if occurs_at_exec(body, open, i) && i + open.len() < body.len() {
            let c = body[i + open.len()];
            if c == '>' || c == ' ' || c == '\t' || c == '\n' || c == '\r' {
                return Some(i);
            }
        }
        i = i + 1;
    }
    if i == body.len() {
        assert(!ends_tag_name(body@, i + name@.len() + 1));
        assert(find_open_tag(body@, name@, i + 1) is None);
    }
    None
}

/// Where the text of the first element `name` lies in `body`.
fn element_range(body: &Vec<char>, name: &Vec<char>) -> (r: Option<(usize, usize)>)
    ensures
        r is Some == element_text(body@, name@) is Some,
        r matches Some((a, b)) ==> a <= b <= body.len() && element_text(body@, name@)->0
            == body@.subrange(a as int, b as int),
{
    let open = concat_chars(&vec!['<'], name);
    let close = concat_chars(&concat_chars(&vec!['<', '/'], name), &vec!['>']);
    let gt = vec!['>'];
    assert(open@ =~= open_prefix(name@));
    assert(close@ =~= close_tag(name@));
    assert(gt@ =~= seq!['>']);
    let i = match find_open_tag_exec(body, name, &open, 0) {
        Some(i) => i,
        None => return None,
    };
    let k = match find_from_exec(body, &gt, i + name.len() + 1) {
        Some(k) => k,
        None => return None,
    };
    let j = match find_from_exec(body, &close, k + 1) {
        Some(j) => j,
        None => return None,
    };
    Some((k + 1, j))
}

/// Decodes the body `s[lo..hi]` of one `<item>` element of the record
/// `xml`, whose characters `s` holds.
fn decode_item_body(xml: &str, s: &Vec<char>, lo: usize, hi: usize) -> (r: Option<MetadataItem>)
    requires
        s@ == xml@,
        lo <= hi <= s.len(),
    ensures
        match r {
            Some(it) => item_of(s@.subrange(lo as int, hi as int)) == Some(it@),
            None => item_of(s@.subrange(lo as int, hi as int)) is None,
        },
{
    let body = sub_vec(s, lo, hi);
    let type_tag = vec!['t', 'y', 'p', 'e'];
    let code_tag = vec!['c', 'o', 'd', 'e'];
    let length_tag = vec!['l', 'e', 'n', 'g', 't', 'h'];
    let data_tag = vec!['d', 'a', 't', 'a'];
    assert(type_tag@ =~= type_tag_name());
    assert(code_tag@ =~= code_name());
    assert(length_tag@ =~= length_name());
    assert(data_tag@ =~= data_name());
    let (t0, t1) = match element_range(&body, &type_tag) {
        Some(r) => r,
        None => return None,
    };
    let (c0, c1) = match element_range(&body, &code_tag) {
        Some(r) => r,
        None => return None,
    };
    let (l0, l1) = match element_range(&body, &length_tag) {
        Some(r) => r,
        None => return None,
    };
    let type_code = match parse_hex_u32(&body, t0, t1) {
        Some(v) => v,
        None => return None,
    };
    let field_code = match parse_hex_u32(&body, c0, c1) {
        Some(v) => v,
        None => return None,
    };
    let length = match parse_decimal_u32(&body, l0, l1) {
        Some(v) => v,
        None => return None,
    };
    let payload = match element_range(&body, &data_tag) {
        Some((d0, d1)) => {
            let p = xml.substring_char(lo + d0, lo + d1);
            assert(p@ =~= body@.subrange(d0 as int, d1 as int));
            Some(p.to_owned())
        },
        None => None,
    };
    Some(MetadataItem { type_code, field_code, length, payload })
}

/// Splits a record into its items, in order. Elements whose tags or
/// numbers do not parse are skipped; a record with no complete
/// `<item>…</item>` element gives none.
pub fn parse_items(xml: &str) -> (r: Vec<MetadataItem>)
    ensures
        r@.map_values(|it: MetadataItem| it@) == record_items(xml@),
{
    let s = chars_of(xml);
    let open = vec!['<', 'i', 't', 'e', 'm', '>'];
    let close = vec!['<', '/', 'i', 't', 'e', 'm', '>'];
    assert(open@ =~= item_open());
    assert(close@ =~= item_close());
    let mut out: Vec<MetadataItem> = Vec::new();
    let mut from: usize = 0;
    loop
        invariant
            s@ == xml@,
            open@ == item_open(),
            close@ == item_close(),
            from <= s.len(),
            out@.map_values(|it: MetadataItem| it@) + items_from(s@, from as int) == record_items(
                s@,
            ),
        decreases s.len() - from,
    {
        let ghost prev = out@.map_values(|it: MetadataItem| it@);
        let i = match find_from_exec(&s, &open, from) {
            Some(i) => i,
            None => {
                assert(prev =~= record_items(s@));
                return out;
            },
        };
        let j = match find_from_exec(&s, &close, i + 6) {
            Some(j) => j,
            None => {
                assert(prev =~= record_items(s@));
                return out;
            },
        };
        let ghost rest = items_from(s@, j + 7);
        match decode_item_body(xml, &s, i + 6, j) {
            Some(it) => {
                out.push(it);
                assert(out@.map_values(|it: MetadataItem| it@) =~= prev.push(it@));
                assert(prev + (seq![it@] + rest) =~= prev.push(it@) + rest);
            },
            None => {
                assert(out@.map_values(|it: MetadataItem| it@) =~= prev);
            },
        }
        from = j + 7;
    }
}

} // verus!
