//! Character-level string utilities with exact specifications.

use vstd::prelude::*;

verus! {

broadcast use vstd::string::group_string_axioms;

/// Appends one character to a string (`String::push`).
#[verifier::external_body]
pub(crate) fn push_char(s: &mut String, c: char)
    ensures
        final(s)@ == old(s)@.push(c),
{
    s.push(c);
}

/// The characters of `s`, in order.
pub fn chars_of(s: &str) -> (res: Vec<char>)
    ensures
        res@ == s@,
{
    let mut v: Vec<char> = Vec::new();
    for c in it: s.chars()
        invariant
            it.seq() == s@,
            v@ == it.seq().take(it.index()),
    {
        v.push(c);
    }
    v
}

/// A string made of the characters of `v`.
pub fn string_of(v: &Vec<char>) -> (res: String)
    ensures
        res@ == v@,
{
    let mut s = String::new();
    let mut i: usize = 0;
    while i < v.len()
        invariant
            i <= v.len(),
            s@ == v@.take(i as int),
        decreases v.len() - i,
    {
        push_char(&mut s, v[i]);
        assert(v@.take(i + 1) == v@.take(i as int).push(v@[i as int]));
        i = i + 1;
    }
    assert(v@.take(v.len() as int) == v@);
    s
}


/// `pat` occurs in `s` starting at position `i`.
pub open spec fn occurs_at(s: Seq<char>, pat: Seq<char>, i: int) -> bool {
    0 <= i && i + pat.len() <= s.len() && s.subrange(i, i + pat.len()) == pat
}

/// `pat` occurs somewhere in `s` (the empty pattern occurs everywhere).
pub open spec fn contains_seq(s: Seq<char>, pat: Seq<char>) -> bool {
    exists|i: int| #[trigger] occurs_at(s, pat, i)
}

/// Replaces every occurrence of the non-empty `from` in `s` by `to`, scanning
/// from the left and resuming after each replaced occurrence.
pub open spec fn replaced(s: Seq<char>, from: Seq<char>, to: Seq<char>) -> Seq<char>
    recommends
        from.len() > 0,
    decreases s.len(),
{
    if from.len() == 0 || s.len() < from.len() {
        s
    } else if s.take(from.len() as int) == from {
        to + replaced(s.skip(from.len() as int), from, to)
    } else {
        seq![s[0]] + replaced(s.skip(1), from, to)
    }
}

/// Whether `pat` occurs in `v` at position `i`.
fn matches_at(v: &Vec<char>, i: usize, pat: &Vec<char>) -> (res: bool)
    requires
        i <= v.len(),
    ensures
        res == occurs_at(v@, pat@, i as int),
{
    if pat.len() > v.len() - i {
        return false;
    }
    let mut k: usize = 0;
    while k < pat.len()
        invariant
            i + pat.len() <= v.len(),
            k <= pat.len(),
            forall|j: int| 0 <= j < k ==> v@[i + j] == pat@[j],
        decreases pat.len() - k,
    {
        if v[i + k] != pat[k] {
            assert(v@.subrange(i as int, i + pat.len())[k as int] != pat@[k as int]);
            return false;
        }
        k = k + 1;
    }
    assert(v@.subrange(i as int, i + pat.len()) =~= pat@);
    true
}

/// Whether `pat` occurs in `s`.
pub fn contains_str(s: &str, pat: &str) -> (res: bool)
    ensures
        res == contains_seq(s@, pat@),
{
    let v = chars_of(s);
    let p = chars_of(pat);
    let mut i: usize = 0;
    while i < v.len()
        invariant
            v@ == s@,
            p@ == pat@,
            i <= v.len(),
            forall|j: int| 0 <= j < i ==> !occurs_at(s@, pat@, j),
        decreases v.len() - i,
    {
        if matches_at(&v, i, &p) {
            assert(occurs_at(s@, pat@, i as int));
            return true;
        }
        i = i + 1;
    }
    if matches_at(&v, i, &p) {
        assert(occurs_at(s@, pat@, i as int));
        return true;
    }
    assert forall|j: int| !occurs_at(s@, pat@, j) by {
        if 0 <= j < i {
        }
    }
    false
}

proof fn lemma_replaced_step(s: Seq<char>, from: Seq<char>, to: Seq<char>, i: int)
    requires
        from.len() > 0,
        0 <= i <= s.len(),
    ensures
        i + from.len() <= s.len() && s.subrange(i, i + from.len()) == from ==> replaced(s.skip(i), from, to)
            == to + replaced(s.skip(i + from.len()), from, to),
        i < s.len() && !occurs_at(s, from, i) ==> replaced(s.skip(i), from, to) == seq![s[i]]
            + replaced(s.skip(i + 1), from, to),
        s.len() < i + from.len() ==> replaced(s.skip(i), from, to) == s.skip(i),
{
    let t = s.skip(i);
    if i + from.len() <= s.len() {
        assert(t.take(from.len() as int) == s.subrange(i, i + from.len()));
        assert(t.skip(from.len() as int) == s.skip(i + from.len()));
    }
    if i < s.len() {
        assert(t.skip(1) == s.skip(i + 1));
        if s.len() < i + from.len() {
            assert(t == seq![s[i]] + t.skip(1));
        } else {
            assert(t.take(from.len() as int) == s.subrange(i, i + from.len()));
        }
    }
}

/// `s` with every occurrence of the non-empty `from` replaced by `to`.
pub fn replace_all(s: &str, from: &str, to: &str) -> (res: String)
    requires
        from@.len() > 0,
    ensures
        res@ == replaced(s@, from@, to@),
{
    let v = chars_of(s);
    let f = chars_of(from);
    let t = chars_of(to);
    let mut out: Vec<char> = Vec::new();
    let mut i: usize = 0;
    assert(s@.skip(0) == s@);
    while i < v.len()
        invariant
            v@ == s@,
            f@ == from@,
            t@ == to@,
            f@.len() > 0,
            i <= v.len(),
            replaced(s@, from@, to@) == out@ + replaced(s@.skip(i as int), from@, to@),
        decreases v.len() - i,
    {
        proof {
            lemma_replaced_step(s@, from@, to@, i as int);
        }
        if matches_at(&v, i, &f) {
            let mut k: usize = 0;
            let ghost before = out@;
            while k < t.len()
                invariant
                    k <= t.len(),
                    out@ == before + t@.take(k as int),
                decreases t.len() - k,
            {
                out.push(t[k]);
                assert(t@.take(k + 1) == t@.take(k as int).push(t@[k as int]));
                k = k + 1;
            }
            assert(t@.take(t.len() as int) == t@);
            assert(out@ == before + t@);
            i = i + f.len();
        } else {
            out.push(v[i]);
            i = i + 1;
        }
    }
    assert(s@.skip(i as int) =~= Seq::<char>::empty());
    string_of(&out)
}

/// `a == b`.
pub fn str_eq(a: &str, b: &str) -> (res: bool)
    ensures
        res == (a@ == b@),
{
    let x = chars_of(a);
    let y = chars_of(b);
    if x.len() != y.len() {
        return false;
    }
    let mut i: usize = 0;
    while i < x.len()
        invariant
            x@ == a@,
            y@ == b@,
            x.len() == y.len(),
            i <= x.len(),
            forall|j: int| 0 <= j < i ==> x@[j] == y@[j],
        decreases x.len() - i,
    {
        if x[i] != y[i] {
            return false;
        }
        i = i + 1;
    }
    assert(x@ =~= y@);
    true
}

/// The first `n` characters of `s`.
pub fn prefix(s: &str, n: usize) -> (res: String)
    requires
        n <= s@.len(),
    ensures
        res@ == s@.take(n as int),
{
    let v = chars_of(s);
    let mut out: Vec<char> = Vec::new();
    let mut i: usize = 0;
    while i < n
        invariant
            v@ == s@,
            n <= v.len(),
            i <= n,
            out@ == v@.take(i as int),
        decreases n - i,
    {
        out.push(v[i]);
        assert(v@.take(i + 1) == v@.take(i as int).push(v@[i as int]));
        i = i + 1;
    }
    string_of(&out)
}


/// `s` with each of `/` `\` `:` `|` `<` `>` `?` `*` `"` (characters that NTFS
/// refuses in names) replaced by a space, one after the other.
pub open spec fn spec_ntfs_safename(s: Seq<char>) -> Seq<char> {
    let sp = seq![' '];
    replaced(
        replaced(
            replaced(
                replaced(
                    replaced(
                        replaced(
                            replaced(replaced(replaced(s, seq!['/'], sp), seq!['\\'], sp), seq![':'], sp),
                            seq!['|'],
                            sp,
                        ),
                        seq!['<'],
                        sp,
                    ),
                    seq!['>'],
                    sp,
                ),
                seq!['?'],
                sp,
            ),
            seq!['*'],
            sp,
        ),
        seq!['"'],
        sp,
    )
}

/// A name that NTFS accepts: `s` with its forbidden characters made spaces.
pub fn ntfs_safename(s: &str) -> (res: String)
    ensures
        res@ == spec_ntfs_safename(s@),
{
    proof {
        reveal_strlit(" ");
        reveal_strlit("/");
        reveal_strlit("\\");
        reveal_strlit(":");
        reveal_strlit("|");
        reveal_strlit("<");
        reveal_strlit(">");
        reveal_strlit("?");
        reveal_strlit("*");
        reveal_strlit("\"");
        assert(" "@ == seq![' ']);
        assert("/"@ == seq!['/']);
        assert("\\"@ == seq!['\\']);
        assert(":"@ == seq![':']);
        assert("|"@ == seq!['|']);
        assert("<"@ == seq!['<']);
        assert(">"@ == seq!['>']);
        assert("?"@ == seq!['?']);
        assert("*"@ == seq!['*']);
        assert("\""@ == seq!['"']);
    }
    let mut r = replace_all(s, "/", " ");
    r = replace_all(r.as_str(), "\\", " ");
    r = replace_all(r.as_str(), ":", " ");
    r = replace_all(r.as_str(), "|", " ");
    r = replace_all(r.as_str(), "<", " ");
    r = replace_all(r.as_str(), ">", " ");
    r = replace_all(r.as_str(), "?", " ");
    r = replace_all(r.as_str(), "*", " ");
    r = replace_all(r.as_str(), "\"", " ");
    r
}

} // verus!
