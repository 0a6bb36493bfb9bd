//! Properties that hold across the library's functions.

use vstd::prelude::*;
use crate::actions::{recorded, sum_bytes, sum_num, FileCount, entry_index, counted};
use crate::music_brainz::{
    recording_search, recording_step, recordings_fold, spec_artist_id, tag_fold, Candidate,
    initial_candidate,
};
use crate::num::{
    all_digits, decimal, digit_char, digits_value, is_digit, parse_i32_spec, parse_u32_spec,
    signed_decimal, split_sign,
};
use crate::online::spec_percent_encode;
use crate::structs::{BasicMetadata, SongFile};
use crate::text::{contains_seq, occurs_at, replaced};
use crate::xml::{named, with_child, XmlTree};

verus! {

proof fn lemma_decimal(n: nat)
    ensures
        decimal(n).len() > 0,
        all_digits(decimal(n)),
        digits_value(decimal(n)) == n,
    decreases n,
{
    if n >= 10 {
        lemma_decimal(n / 10);
        let s = decimal(n);
        assert(s.drop_last() == decimal(n / 10));
        assert(is_digit(digit_char((n % 10) as int)));
        assert forall|i: int| 0 <= i < s.len() implies #[trigger] is_digit(s[i]) by {
            if i < s.len() - 1 {
                assert(s[i] == decimal(n / 10)[i]);
            }
        }
    } else {
        reveal_with_fuel(digits_value, 2);
        assert(decimal(n).drop_last().len() == 0);
    }
}

/// Parsing the decimal notation of a number gives the number back.
pub proof fn law_u32_decimal_roundtrip(n: u32)
    ensures
        parse_u32_spec(decimal(n as nat)) == Some(n),
{
    lemma_decimal(n as nat);
    assert(is_digit(decimal(n as nat)[0]));
}

/// Parsing the signed decimal notation of a number gives the number back.
pub proof fn law_i32_decimal_roundtrip(x: i32)
    ensures
        parse_i32_spec(signed_decimal(x as int)) == Some(x),
{
    if x < 0 {
        let m = (-x) as nat;
        lemma_decimal(m);
        let s = signed_decimal(x as int);
        assert(s.skip(1) == decimal(m));
        assert(split_sign(s) == (true, decimal(m)));
    } else {
        lemma_decimal(x as nat);
        assert(is_digit(decimal(x as nat)[0]));
    }
}


/// Replacing a text that does not occur changes nothing.
pub proof fn law_replace_without_occurrence(s: Seq<char>, from: Seq<char>, to: Seq<char>)
    requires
        from.len() > 0,
        !contains_seq(s, from),
    ensures
        replaced(s, from, to) == s,
    decreases s.len(),
{
    if s.len() >= from.len() {
        if s.take(from.len() as int) == from {
            assert(s.subrange(0, from.len() as int) == s.take(from.len() as int));
            assert(occurs_at(s, from, 0));
        }
        assert forall|i: int| !#[trigger] occurs_at(s.skip(1), from, i) by {
            if occurs_at(s.skip(1), from, i) {
                assert(s.subrange(i + 1, i + 1 + from.len()) == s.skip(1).subrange(i, i + from.len()));
                assert(occurs_at(s, from, i + 1));
            }
        }
        law_replace_without_occurrence(s.skip(1), from, to);
        assert(s == seq![s[0]] + s.skip(1));
    }
}

proof fn lemma_replace_char(s: Seq<char>, c: char, to: Seq<char>, p: spec_fn(char) -> bool)
    requires
        forall|i: int| 0 <= i < s.len() ==> #[trigger] p(s[i]),
        forall|i: int| 0 <= i < to.len() ==> #[trigger] p(to[i]) && to[i] != c,
    ensures
        forall|i: int|
            0 <= i < replaced(s, seq![c], to).len() ==> #[trigger] p(replaced(s, seq![c], to)[i])
                && replaced(s, seq![c], to)[i] != c,
    decreases s.len(),
{
    let r = replaced(s, seq![c], to);
    if s.len() >= 1 {
        let rest = replaced(s.skip(1), seq![c], to);
        lemma_replace_char(s.skip(1), c, to, p);
        if s.take(1) == seq![c] {
            assert(r == to + rest);
            assert forall|i: int| 0 <= i < r.len() implies #[trigger] p(r[i]) && r[i] != c by {
                if i >= to.len() {
                    assert(r[i] == rest[i - to.len()]);
                }
            }
        } else {
            assert(s.take(1) == seq![s[0]]);
            assert(r == seq![s[0]] + rest);
            assert forall|i: int| 0 <= i < r.len() implies #[trigger] p(r[i]) && r[i] != c by {
                if i >= 1 {
                    assert(r[i] == rest[i - 1]);
                }
            }
        }
    }
}

/// A character that can stand in a query as it is: printable ASCII other than
/// space `"` `#` `&` `/` `:` `<` `>` `?` `` ` `` `{` `}`.
pub open spec fn query_safe(c: char) -> bool {
    let v = c as u32;
    0x21 <= v <= 0x7e && v != 0x22 && v != 0x23 && v != 0x3c && v != 0x3e && v != 0x60
        && v != 0x3f && v != 0x7b && v != 0x7d && c != '&' && c != '/' && c != ':'
}

proof fn lemma_replace_concat(a: Seq<char>, b: Seq<char>, c: char, to: Seq<char>)
    ensures
        replaced(a + b, seq![c], to) == replaced(a, seq![c], to) + replaced(b, seq![c], to),
    decreases a.len(),
{
    if a.len() == 0 {
        assert(a + b == b);
    } else {
        let ab = a + b;
        assert(ab.take(1) == a.take(1));
        assert(ab.skip(1) == a.skip(1) + b);
        lemma_replace_concat(a.skip(1), b, c, to);
        let ra = replaced(a.skip(1), seq![c], to);
        let rb = replaced(b, seq![c], to);
        if a.take(1) == seq![c] {
            assert(to + (ra + rb) == (to + ra) + rb);
        } else {
            assert(ab[0] == a[0]);
            assert(seq![a[0]] + (ra + rb) == (seq![a[0]] + ra) + rb);
        }
    }
}

proof fn lemma_replace_lacking(x: Seq<char>, c: char, to: Seq<char>)
    requires
        lacks(x, c),
    ensures
        replaced(x, seq![c], to) == x,
    decreases x.len(),
{
    if x.len() > 0 {
        assert(x.take(1)[0] == x[0]);
        assert(x.take(1) != seq![c]);
        assert(lacks(x.skip(1), c));
        lemma_replace_lacking(x.skip(1), c, to);
        assert(x == seq![x[0]] + x.skip(1));
    }
}

proof fn lemma_replace_single(x: char, c: char, to: Seq<char>)
    ensures
        replaced(seq![x], seq![c], to) == (if x == c { to } else { seq![x] }),
{
    let s = seq![x];
    assert(s.take(1) == s);
    assert(s.skip(1) =~= Seq::<char>::empty());
    assert(replaced(Seq::<char>::empty(), seq![c], to) == Seq::<char>::empty());
    if x == c {
        assert(to + Seq::<char>::empty() == to);
    } else {
        assert(s + Seq::<char>::empty() == s);
    }
}

/// The three replacements that `percent_encode` makes after the default encoding.
pub open spec fn query_replacements(x: Seq<char>) -> Seq<char> {
    replaced(replaced(replaced(x, seq!['&'], "%26"@), seq!['/'], "%2F"@), seq![':'], "%3A"@)
}

proof fn lemma_query_replacements_concat(a: Seq<char>, b: Seq<char>)
    ensures
        query_replacements(a + b) == query_replacements(a) + query_replacements(b),
{
    let a1 = replaced(a, seq!['&'], "%26"@);
    let b1 = replaced(b, seq!['&'], "%26"@);
    lemma_replace_concat(a, b, '&', "%26"@);
    let a2 = replaced(a1, seq!['/'], "%2F"@);
    let b2 = replaced(b1, seq!['/'], "%2F"@);
    lemma_replace_concat(a1, b1, '/', "%2F"@);
    lemma_replace_concat(a2, b2, ':', "%3A"@);
}

proof fn lemma_hex_upper(d: int)
    requires
        0 <= d < 16,
    ensures
        hex_value_of(crate::online::hex_upper(d)) == d,
        crate::online::hex_upper(d) != '&' && crate::online::hex_upper(d) != '/'
            && crate::online::hex_upper(d) != ':' && crate::online::hex_upper(d) != '%',
        query_safe(crate::online::hex_upper(d)),
{
}

/// `hex_value`, named here for brevity.
pub open spec fn hex_value_of(c: char) -> int {
    crate::online::hex_value(c)
}

proof fn lemma_query_replacements_byte(b: u8)
    ensures
        query_replacements(crate::online::encode_byte(b)) == crate::online::query_encode_byte(b),
{
    reveal_strlit("%26");
    reveal_strlit("%2F");
    reveal_strlit("%3A");
    let e = crate::online::encode_byte(b);
    if crate::online::in_default_encode_set(b) {
        lemma_hex_upper((b / 16) as int);
        lemma_hex_upper((b % 16) as int);
        assert(lacks(e, '&'));
        lemma_replace_lacking(e, '&', "%26"@);
        assert(lacks(e, '/'));
        lemma_replace_lacking(e, '/', "%2F"@);
        assert(lacks(e, ':'));
        lemma_replace_lacking(e, ':', "%3A"@);
    } else {
        let x = b as char;
        assert(e == seq![x]);
        lemma_replace_single(x, '&', "%26"@);
        if b == 0x26 {
            assert(x == '&');
            let t = "%26"@;
            assert(lacks(t, '/'));
            lemma_replace_lacking(t, '/', "%2F"@);
            assert(lacks(t, ':'));
            lemma_replace_lacking(t, ':', "%3A"@);
            assert(t =~= crate::online::query_encode_byte(b));
        } else {
            assert(x != '&');
            lemma_replace_single(x, '/', "%2F"@);
            if b == 0x2f {
                assert(x == '/');
                let t = "%2F"@;
                assert(lacks(t, ':'));
                lemma_replace_lacking(t, ':', "%3A"@);
                assert(t =~= crate::online::query_encode_byte(b));
            } else {
                assert(x != '/');
                lemma_replace_single(x, ':', "%3A"@);
                if b == 0x3a {
                    assert(x == ':');
                    assert("%3A"@ =~= crate::online::query_encode_byte(b));
                } else {
                    assert(x != ':');
                }
            }
        }
    }
}

proof fn lemma_query_replacements_bytes(bs: Seq<u8>)
    ensures
        query_replacements(crate::online::encode_bytes(bs)) == crate::online::query_encode_bytes(bs),
    decreases bs.len(),
{
    if bs.len() == 0 {
        lemma_query_replacements_concat(Seq::empty(), Seq::empty());
        assert(Seq::<char>::empty() + Seq::<char>::empty() == Seq::<char>::empty());
    } else {
        lemma_query_replacements_bytes(bs.drop_first());
        lemma_query_replacements_byte(bs[0]);
        lemma_query_replacements_concat(
            crate::online::encode_byte(bs[0]),
            crate::online::encode_bytes(bs.drop_first()),
        );
    }
}

/// `percent_encode` writes each UTF-8 byte of its text on its own: bytes of
/// the default set and `&`, `/`, `:` as `%` and two uppercase hex digits, any
/// other byte as its character.
pub proof fn law_percent_encode_by_bytes(s: Seq<char>)
    ensures
        spec_percent_encode(s) == crate::online::query_encode_bytes(vstd::utf8::encode_utf8(s)),
{
    lemma_query_replacements_bytes(vstd::utf8::encode_utf8(s));
}

proof fn lemma_query_encode_bytes_safe(bs: Seq<u8>)
    ensures
        forall|i: int|
            0 <= i < crate::online::query_encode_bytes(bs).len() ==> #[trigger] query_safe(
                crate::online::query_encode_bytes(bs)[i],
            ),
    decreases bs.len(),
{
    if bs.len() > 0 {
        lemma_query_encode_bytes_safe(bs.drop_first());
        let first = crate::online::query_encode_byte(bs[0]);
        let rest = crate::online::query_encode_bytes(bs.drop_first());
        let b = bs[0];
        lemma_hex_upper((b / 16) as int);
        lemma_hex_upper((b % 16) as int);
        assert forall|i: int| 0 <= i < first.len() implies #[trigger] query_safe(first[i]) by {}
        let e = crate::online::query_encode_bytes(bs);
        assert(e == first + rest);
        assert forall|i: int| 0 <= i < e.len() implies #[trigger] query_safe(e[i]) by {
            if i < first.len() {
                assert(e[i] == first[i]);
            } else {
                assert(e[i] == rest[i - first.len()]);
            }
        }
    }
}

/// What `percent_encode` gives holds only characters that can stand in a query.
pub proof fn law_percent_encode_is_query_safe(s: Seq<char>)
    ensures
        forall|i: int|
            0 <= i < spec_percent_encode(s).len() ==> #[trigger] query_safe(spec_percent_encode(s)[i]),
{
    law_percent_encode_by_bytes(s);
    lemma_query_encode_bytes_safe(vstd::utf8::encode_utf8(s));
}

proof fn lemma_scalar_not_percent(c: char)
    requires
        c != '%',
    ensures
        forall|i: int|
            0 <= i < vstd::utf8::encode_scalar(c as u32).len() ==> #[trigger] vstd::utf8::encode_scalar(
                c as u32,
            )[i] != 0x25,
{
    let v = c as u32;
    assert(v != 0x25);
    assert(v <= 0x7f ==> (v & 0x7f) as u8 != 0x25u8) by (bit_vector)
        requires
            v != 0x25,
    ;
    assert(forall|x: u32| #[trigger] (0xC0u8 | ((x >> 6) & 0x1F) as u8) != 0x25u8) by (bit_vector);
    assert(forall|x: u32| #[trigger] (0xE0u8 | ((x >> 12) & 0x0F) as u8) != 0x25u8) by (bit_vector);
    assert(forall|x: u32| #[trigger] (0xF0u8 | ((x >> 18) & 0x7) as u8) != 0x25u8) by (bit_vector);
    assert(forall|x: u32| #[trigger] (0x80u8 | (x & 0x3F) as u8) != 0x25u8) by (bit_vector);
    assert(forall|x: u32| #[trigger] (0x80u8 | ((x >> 6) & 0x3F) as u8) != 0x25u8) by (bit_vector);
    assert(forall|x: u32| #[trigger] (0x80u8 | ((x >> 12) & 0x3F) as u8) != 0x25u8) by (bit_vector);
}

proof fn lemma_utf8_not_percent(s: Seq<char>)
    requires
        lacks(s, '%'),
    ensures
        forall|i: int|
            0 <= i < vstd::utf8::encode_utf8(s).len() ==> #[trigger] vstd::utf8::encode_utf8(s)[i]
                != 0x25,
    decreases s.len(),
{
    if s.len() > 0 {
        let rest = s.drop_first();
        assert(lacks(rest, '%'));
        lemma_utf8_not_percent(rest);
        lemma_scalar_not_percent(s[0]);
        let first = vstd::utf8::encode_scalar(s[0] as u32);
        let tail = vstd::utf8::encode_utf8(rest);
        let e = vstd::utf8::encode_utf8(s);
        assert(e == first + tail);
        assert forall|i: int| 0 <= i < e.len() implies #[trigger] e[i] != 0x25 by {
            if i < first.len() {
                assert(e[i] == first[i]);
            } else {
                assert(e[i] == tail[i - first.len()]);
            }
        }
    }
}

proof fn lemma_decode_query_encoded(bs: Seq<u8>)
    requires
        forall|i: int| 0 <= i < bs.len() ==> #[trigger] bs[i] != 0x25,
    ensures
        crate::online::percent_decode(crate::online::query_encode_bytes(bs)) == bs,
    decreases bs.len(),
{
    if bs.len() > 0 {
        let b = bs[0];
        let rest = bs.drop_first();
        assert forall|i: int| 0 <= i < rest.len() implies #[trigger] rest[i] != 0x25 by {
            assert(rest[i] == bs[i + 1]);
        }
        lemma_decode_query_encoded(rest);
        let first = crate::online::query_encode_byte(b);
        let tail = crate::online::query_encode_bytes(rest);
        let e = first + tail;
        assert(crate::online::query_encode_bytes(bs) == e);
        if crate::online::in_query_encode_set(b) {
            lemma_hex_upper((b / 16) as int);
            lemma_hex_upper((b % 16) as int);
            assert(e[0] == '%');
            assert(e[1] == first[1]);
            assert(e[2] == first[2]);
            assert(e.skip(3) == tail);
            assert((b / 16) * 16 + b % 16 == b);
        } else {
            assert(b != 0x25);
            assert(e[0] == (b as char));
            assert((b as char) != '%');
            assert(e.skip(1) == tail);
            assert(((b as char) as u8) == b);
        }
        assert(bs == seq![b] + rest);
    }
}

/// Decoding what `percent_encode` gives returns the UTF-8 bytes of the text,
/// and so the text itself, when the text holds no `%` (which the encoding
/// leaves as it is).
pub proof fn law_percent_decode_roundtrip(s: Seq<char>)
    requires
        lacks(s, '%'),
    ensures
        crate::online::percent_decode(spec_percent_encode(s)) == vstd::utf8::encode_utf8(s),
        vstd::utf8::decode_utf8(crate::online::percent_decode(spec_percent_encode(s))) == s,
{
    law_percent_encode_by_bytes(s);
    lemma_utf8_not_percent(s);
    lemma_decode_query_encoded(vstd::utf8::encode_utf8(s));
    vstd::utf8::encode_utf8_decode_utf8(s);
}

proof fn lemma_sum_update(es: Seq<(Seq<char>, FileCount)>, k: int, x: (Seq<char>, FileCount))
    requires
        0 <= k < es.len(),
    ensures
        sum_num(es.update(k, x)) == sum_num(es) - es[k].1.num + x.1.num,
        sum_bytes(es.update(k, x)) == sum_bytes(es) - es[k].1.bytes + x.1.bytes,
    decreases es.len(),
{
    let u = es.update(k, x);
    if k == es.len() - 1 {
        assert(u.drop_last() == es.drop_last());
    } else {
        assert(u.drop_last() == es.drop_last().update(k, x));
        lemma_sum_update(es.drop_last(), k, x);
    }
}

proof fn lemma_entry_index_bounds(es: Seq<(Seq<char>, FileCount)>, ext: Seq<char>)
    ensures
        -1 <= entry_index(es, ext) < es.len(),
    decreases es.len(),
{
    if es.len() > 0 && es.last().0 != ext {
        lemma_entry_index_bounds(es.drop_last(), ext);
    }
}

/// Recording a file counts it exactly once: the total number of files grows by
/// one and the total of bytes by its size.
pub proof fn law_record_counts_once(
    es: Seq<(Seq<char>, FileCount)>,
    ext: Seq<char>,
    bytes: u64,
    has_search_key: bool,
    complete: bool,
)
    requires
        entry_index(es, ext) >= 0 ==> crate::actions::can_count(es[entry_index(es, ext)].1, bytes),
    ensures
        sum_num(recorded(es, ext, bytes, has_search_key, complete)) == sum_num(es) + 1,
        sum_bytes(recorded(es, ext, bytes, has_search_key, complete)) == sum_bytes(es) + bytes,
{
    let k = entry_index(es, ext);
    lemma_entry_index_bounds(es, ext);
    let r = recorded(es, ext, bytes, has_search_key, complete);
    if k < 0 {
        assert(r.drop_last() == es);
    } else {
        lemma_sum_update(es, k, (ext, counted(es[k].1, bytes, has_search_key, complete)));
    }
}

/// Complete metadata includes the search key.
pub proof fn law_complete_has_search_key(song: SongFile)
    requires
        song.spec_is_metadata_complete(),
    ensures
        song.spec_has_search_key(),
{
}

/// Metadata with empty texts, no track number and date 0 says nothing.
pub proof fn law_empty_metadata_has_no_data(m: BasicMetadata)
    requires
        m.genre@.len() == 0,
        m.album@.len() == 0,
        m.composer@.len() == 0,
        m.track_number == 0,
        m.date == 0,
    ensures
        !m.spec_has_some_data(),
{
}

proof fn lemma_named_push(cs: Seq<(Seq<char>, XmlTree)>, x: (Seq<char>, XmlTree), name: Seq<char>)
    ensures
        named(cs.push(x), name) == (if x.0 == name {
            named(cs, name).push(x.1)
        } else {
            named(cs, name)
        }),
    decreases cs.len(),
{
    let c = cs.push(x);
    if cs.len() == 0 {
        assert(c.skip(1) =~= Seq::<(Seq<char>, XmlTree)>::empty());
        assert(named(c.skip(1), name) == Seq::<XmlTree>::empty());
        assert(named(cs, name) == Seq::<XmlTree>::empty());
        if x.0 == name {
            assert(named(c, name) =~= seq![x.1]);
        } else {
            assert(named(c, name) =~= Seq::<XmlTree>::empty());
        }
    } else {
        assert(c.skip(1) == cs.skip(1).push(x));
        assert(c[0] == cs[0]);
        lemma_named_push(cs.skip(1), x, name);
        let r = named(cs.skip(1), name);
        if cs[0].0 == name {
            assert((seq![cs[0].1] + r).push(x.1) =~= seq![cs[0].1] + r.push(x.1));
        }
    }
}

/// Adding a child named `key` puts it last among the children named `key`
/// and leaves the children of every other name as they were.
pub proof fn law_add_child_named(t: XmlTree, key: Seq<char>, child: XmlTree, name: Seq<char>)
    ensures
        named(with_child(t, key, child).children, name) == (if name == key {
            named(t.children, name).push(child)
        } else {
            named(t.children, name)
        }),
{
    lemma_named_push(t.children, (key, child), name);
}

/// An artist id that the search gives is never empty.
pub proof fn law_artist_id_not_empty(t: XmlTree)
    ensures
        spec_artist_id(t) matches Ok(id) ==> id.len() > 0,
{
}


proof fn lemma_tag_fold_date(c: Candidate, tags: Seq<XmlTree>)
    ensures
        tag_fold(c, tags) matches Some(c1) ==> c1.date == c.date,
    decreases tags.len(),
{
    if tags.len() > 0 {
        let g = tags[0];
        lemma_tag_fold_date(c, tags.skip(1));
        match crate::xml::attr_lookup(g.attributes, "count"@) {
            Some(count) => match parse_i32_spec(count) {
                Some(votes) => {
                    if votes > c.tag_count && crate::music_brainz::has_child(g, "name"@) {
                        lemma_tag_fold_date(
                            Candidate {
                                tag_count: votes,
                                genre: crate::music_brainz::child_of(g, "name"@).value,
                                ..c
                            },
                            tags.skip(1),
                        );
                    }
                },
                None => {},
            },
            None => {},
        }
    }
}

/// No release found yet, or a release dated after 1800 and before 9001.
pub open spec fn date_in_range(c: Candidate) -> bool {
    c.date == 9001 || (1800 < c.date && c.date < 9001)
}

proof fn lemma_recordings_fold_date(c: Candidate, rs: Seq<XmlTree>)
    requires
        date_in_range(c),
    ensures
        recordings_fold(c, rs) matches Some(c1) ==> date_in_range(c1),
    decreases rs.len(),
{
    if rs.len() > 0 {
        let r = rs[0];
        if crate::music_brainz::has_child(r, "tag-list"@) {
            lemma_tag_fold_date(
                c,
                named(crate::music_brainz::child_of(r, "tag-list"@).children, "tag"@),
            );
        }
        match recording_step(c, r) {
            Some(c1) => {
                assert(date_in_range(c1));
                lemma_recordings_fold_date(c1, rs.skip(1));
            },
            None => {},
        }
    }
}

/// A release that a recording search answer yields is dated after 1800 and
/// before 9001.
pub proof fn law_recording_date_in_range(t: XmlTree)
    ensures
        recording_search(t) matches Some(Ok(c)) ==> 1800 < c.date && c.date < 9001,
{
    if crate::music_brainz::has_child(t, "metadata"@) && crate::music_brainz::has_child(
        crate::music_brainz::child_of(t, "metadata"@),
        "recording-list"@,
    ) {
        lemma_recordings_fold_date(
            initial_candidate(),
            named(crate::music_brainz::recording_list(t).children, "recording"@),
        );
    }
}


proof fn lemma_replace_lacks(s: Seq<char>, c: char, to: Seq<char>, d: char)
    requires
        d == c || forall|i: int| 0 <= i < s.len() ==> s[i] != d,
        forall|i: int| 0 <= i < to.len() ==> to[i] != d && to[i] != c,
    ensures
        forall|i: int|
            0 <= i < replaced(s, seq![c], to).len() ==> replaced(s, seq![c], to)[i] != d,
{
    let p = |x: char| x != d || x == c;
    assert forall|i: int| 0 <= i < s.len() implies #[trigger] p(s[i]) by {}
    assert forall|i: int| 0 <= i < to.len() implies #[trigger] p(to[i]) && to[i] != c by {}
    lemma_replace_char(s, c, to, p);
    let r = replaced(s, seq![c], to);
    assert forall|i: int| 0 <= i < r.len() implies r[i] != d by {
        assert(p(r[i]) && r[i] != c);
    }
}

/// No character of `s` is `d`.
pub open spec fn lacks(s: Seq<char>, d: char) -> bool {
    forall|i: int| 0 <= i < s.len() ==> s[i] != d
}

proof fn lemma_space_step(s: Seq<char>, c: char, d: char)
    requires
        c != ' ',
        d != ' ',
    ensures
        (d == c || lacks(s, d)) ==> lacks(replaced(s, seq![c], seq![' ']), d),
{
    if d == c || lacks(s, d) {
        lemma_replace_lacks(s, c, seq![' '], d);
    }
}

/// A name made NTFS-safe holds none of the characters NTFS refuses.
pub proof fn law_ntfs_safename_is_safe(s: Seq<char>, f: char)
    requires
        f == '/' || f == '\\' || f == ':' || f == '|' || f == '<' || f == '>' || f == '?' || f
            == '*' || f == '"',
    ensures
        lacks(crate::text::spec_ntfs_safename(s), f),
{
    let sp = seq![' '];
    let r1 = replaced(s, seq!['/'], sp);
    let r2 = replaced(r1, seq!['\\'], sp);
    let r3 = replaced(r2, seq![':'], sp);
    let r4 = replaced(r3, seq!['|'], sp);
    let r5 = replaced(r4, seq!['<'], sp);
    let r6 = replaced(r5, seq!['>'], sp);
    let r7 = replaced(r6, seq!['?'], sp);
    let r8 = replaced(r7, seq!['*'], sp);
    let r9 = replaced(r8, seq!['"'], sp);
    lemma_space_step(s, '/', f);
    lemma_space_step(r1, '\\', f);
    lemma_space_step(r2, ':', f);
    lemma_space_step(r3, '|', f);
    lemma_space_step(r4, '<', f);
    lemma_space_step(r5, '>', f);
    lemma_space_step(r6, '?', f);
    lemma_space_step(r7, '*', f);
    lemma_space_step(r8, '"', f);
    assert(r9 == crate::text::spec_ntfs_safename(s));
}


/// The year of the release of a recording that the search can take: scored
/// 75 or more, with `release-list/release`, a date and the status `Official`,
/// and a four-digit year after 1800.
pub open spec fn usable_year(r: XmlTree) -> Option<i32> {
    let rel = crate::music_brainz::child_of(
        crate::music_brainz::child_of(r, "release-list"@),
        "release"@,
    );
    match crate::xml::attr_lookup(r.attributes, "score"@) {
        None => None,
        Some(score) => match parse_i32_spec(score) {
            None => None,
            Some(confidence) => if confidence >= 75 && crate::music_brainz::has_child(
                r,
                "release-list"@,
            ) && crate::music_brainz::has_child(
                crate::music_brainz::child_of(r, "release-list"@),
                "release"@,
            ) && crate::music_brainz::has_child(rel, "date"@) && crate::music_brainz::has_child(
                rel,
                "status"@,
            ) && crate::music_brainz::child_of(rel, "status"@).value == "Official"@ {
                match crate::music_brainz::release_year(
                    crate::music_brainz::child_of(rel, "date"@).value,
                ) {
                    Some(y) => if y > 1800 {
                        Some(y)
                    } else {
                        None
                    },
                    None => None,
                }
            } else {
                None
            },
        },
    }
}

proof fn lemma_step_date(c: Candidate, r: XmlTree)
    ensures
        recording_step(c, r) matches Some(c1) ==> c1.date == (match usable_year(r) {
            Some(y) => if y < c.date {
                y
            } else {
                c.date
            },
            None => c.date,
        }),
{
    if crate::music_brainz::has_child(r, "tag-list"@) {
        lemma_tag_fold_date(
            c,
            named(crate::music_brainz::child_of(r, "tag-list"@).children, "tag"@),
        );
    }
}

proof fn lemma_fold_oldest(c: Candidate, rs: Seq<XmlTree>)
    ensures
        recordings_fold(c, rs) matches Some(c1) ==> {
            &&& c1.date <= c.date
            &&& forall|i: int|
                0 <= i < rs.len() ==> (#[trigger] usable_year(rs[i]) matches Some(y) ==> c1.date
                    <= y)
            &&& (c1.date == c.date || exists|i: int|
                0 <= i < rs.len() && #[trigger] usable_year(rs[i]) == Some(c1.date))
        },
    decreases rs.len(),
{
    if rs.len() > 0 {
        lemma_step_date(c, rs[0]);
        match recording_step(c, rs[0]) {
            Some(c2) => {
                let rest = rs.skip(1);
                lemma_fold_oldest(c2, rest);
                match recordings_fold(c2, rest) {
                    Some(c1) => {
                        assert forall|i: int|
                            0 <= i < rs.len() implies (#[trigger] usable_year(rs[i]) matches Some(
                            y,
                        ) ==> c1.date <= y) by {
                            if i > 0 {
                                assert(rs[i] == rest[i - 1]);
                            }
                        }
                        if c1.date != c.date {
                            if c1.date == c2.date {
                                assert(usable_year(rs[0]) == Some(c1.date));
                            } else {
                                let k = choose|k: int|
                                    0 <= k < rest.len() && #[trigger] usable_year(rest[k]) == Some(
                                        c1.date,
                                    );
                                assert(rest[k] == rs[k + 1]);
                                assert(usable_year(rs[k + 1]) == Some(c1.date));
                            }
                        }
                    },
                    None => {},
                }
            },
            None => {},
        }
    }
}

/// The release that a recording search gives is the oldest usable one: its
/// date is the year of a usable release, and no usable release is older.
pub proof fn law_recording_is_oldest(t: XmlTree)
    ensures
        recording_search(t) matches Some(Ok(c)) ==> {
            let rs = named(crate::music_brainz::recording_list(t).children, "recording"@);
            &&& forall|i: int|
                0 <= i < rs.len() ==> (#[trigger] usable_year(rs[i]) matches Some(y) ==> c.date
                    <= y)
            &&& exists|i: int| 0 <= i < rs.len() && #[trigger] usable_year(rs[i]) == Some(c.date)
        },
{
    if crate::music_brainz::has_child(t, "metadata"@) && crate::music_brainz::has_child(
        crate::music_brainz::child_of(t, "metadata"@),
        "recording-list"@,
    ) {
        lemma_fold_oldest(
            initial_candidate(),
            named(crate::music_brainz::recording_list(t).children, "recording"@),
        );
    }
}

} // verus!
