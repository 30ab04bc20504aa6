//! The server's mod manifest: `;`-separated tokens, the first half names and
//! the second half the expected sizes, or `-` when there are no mods.
use vstd::prelude::*;
use vstd::slice::slice_subrange;
use vstd::string::StrSliceExecFns;
use crate::decimal::{decimal_of, parse_decimal};

verus! {

/// Why a mod manifest could not be read.
#[derive(Debug)]
pub enum ParseError {
    /// The manifest holds an odd number of tokens, so names and sizes do not
    /// pair up; the count is given.
    OddTokenCount(usize),
    /// A size token is not an unsigned decimal number that fits a `usize`;
    /// the token is given.
    InvalidSize(String),
}

/// `s` split at every `;`, empty fields included (as `str::split` does).
pub open spec fn fields(s: Seq<char>) -> Seq<Seq<char>>
    decreases s.len(),
{
    if s.len() == 0 {
        seq![Seq::empty()]
    } else {
        let f = fields(s.drop_last());
        if s.last() == ';' {
            f.push(Seq::empty())
        } else {
            f.update(f.len() - 1, f.last().push(s.last()))
        }
    }
}

/// `fs` without its empty fields.
pub open spec fn non_empty(fs: Seq<Seq<char>>) -> Seq<Seq<char>> {
    fs.filter(|f: Seq<char>| f.len() > 0)
}

/// The tokens of a manifest: its fields with the empty ones dropped.
pub open spec fn tokens(s: Seq<char>) -> Seq<Seq<char>> {
    non_empty(fields(s))
}

/// The size that token `t` gives, if it is a valid one.
pub open spec fn size_of(t: Seq<char>) -> Option<nat> {
    decimal_of(t, usize::MAX as nat)
}

/// Every size token of `t` (its second half) is a valid size.
pub open spec fn sizes_valid(t: Seq<Seq<char>>) -> bool {
    forall|k: int| t.len() / 2 <= k < t.len() ==> (#[trigger] size_of(t[k])) is Some
}

/// Token `k` of `t` is the first size token that is not a valid size.
pub open spec fn first_invalid_size(t: Seq<Seq<char>>, k: int) -> bool {
    &&& t.len() / 2 <= k < t.len()
    &&& size_of(t[k]) is None
    &&& forall|j: int| t.len() / 2 <= j < k ==> (#[trigger] size_of(t[j])) is Some
}

/// `v` pairs each name token of `t` with the size of the token half a list
/// further on, in order.
pub open spec fn pairs_tokens(v: Seq<(String, usize)>, t: Seq<Seq<char>>) -> bool {
    &&& v.len() == t.len() / 2
    &&& forall|i: int|
        0 <= i < v.len() ==> #[trigger] v[i].0@ == t[i] && size_of(t[t.len() / 2 + i]) == Some(
            v[i].1 as nat,
        )
}

pub open spec fn is_no_mods_sentinel(s: Seq<char>) -> bool {
    s == seq!['-']
}

/// The entries a manifest describes, as (name, size) pairs, or `None` when
/// it is malformed.
pub open spec fn mod_entries(s: Seq<char>) -> Option<Seq<(Seq<char>, usize)>> {
    let t = tokens(s);
    if is_no_mods_sentinel(s) {
        Some(Seq::empty())
    } else if t.len() % 2 == 0 && sizes_valid(t) {
        Some(Seq::new(t.len() / 2, |i: int| (t[i], size_of(t[t.len() / 2 + i])->0 as usize)))
    } else {
        None
    }
}

/// Parsed entries with their names seen as character sequences.
pub open spec fn entries_view(v: Seq<(String, usize)>) -> Seq<(Seq<char>, usize)> {
    v.map_values(|e: (String, usize)| (e.0@, e.1))
}

proof fn lemma_fields_not_empty(s: Seq<char>)
    ensures
        fields(s).len() >= 1,
    decreases s.len(),
{
    if s.len() > 0 {
        lemma_fields_not_empty(s.drop_last());
    }
}

proof fn lemma_non_empty_last(fs: Seq<Seq<char>>)
    requires
        fs.len() > 0,
    ensures
        non_empty(fs) == (if fs.last().len() > 0 {
            non_empty(fs.drop_last()).push(fs.last())
        } else {
            non_empty(fs.drop_last())
        }),
{
    reveal(Seq::filter);
}

/// The characters of `s`, in order.
fn chars_of(s: &str) -> (r: Vec<char>)
    ensures
        r@ == s@,
{
    broadcast use vstd::string::axiom_spec_iter;

    let mut r: Vec<char> = Vec::new();
    for c in it: s.chars()
        invariant
            it.seq() == s@,
            r@ == it.seq().subrange(0, it.index() as int),
    {
        r.push(c);
    }
    assert(r@ == s@.subrange(0, s@.len() as int));
    r
}

/// Where the tokens of `s` stand: one range of character positions each.
fn token_ranges(s: &Vec<char>) -> (r: Vec<(usize, usize)>)
    ensures
        r@.len() == tokens(s@).len(),
        forall|k: int|
            0 <= k < r@.len() ==> {
                &&& 0 <= (#[trigger] r@[k]).0 <= r@[k].1 <= s@.len()
                &&& s@.subrange(r@[k].0 as int, r@[k].1 as int) == tokens(s@)[k]
            },
{
    let mut r: Vec<(usize, usize)> = Vec::new();
    let mut start: usize = 0;
    let mut i: usize = 0;
    proof {
        assert(s@.subrange(0, 0) == Seq::<char>::empty());
    }
    while i < s.len()
        invariant
            start <= i <= s@.len(),
            fields(s@.subrange(0, i as int)).len() >= 1,
            fields(s@.subrange(0, i as int)).last() == s@.subrange(start as int, i as int),
            r@.len() == non_empty(fields(s@.subrange(0, i as int)).drop_last()).len(),
            forall|k: int|
                0 <= k < r@.len() ==> {
                    &&& 0 <= (#[trigger] r@[k]).0 <= r@[k].1 <= i
                    &&& s@.subrange(r@[k].0 as int, r@[k].1 as int) == non_empty(
                        fields(s@.subrange(0, i as int)).drop_last(),
                    )[k]
                },
        decreases s@.len() - i,
    {
        let ghost prev = s@.subrange(0, i as int);
        let ghost next = s@.subrange(0, i + 1);
        proof {
            assert(next.drop_last() == prev);
            lemma_fields_not_empty(prev);
        }
        let ghost f = fields(prev);
        if s[i] == ';' {
            assert(fields(next) == f.push(Seq::empty()));
            assert(fields(next).drop_last() == f);
            proof {
                lemma_non_empty_last(f);
            }
            if start < i {
                r.push((start, i));
                assert(non_empty(f) == non_empty(f.drop_last()).push(f.last()));
            } else {
                assert(non_empty(f) == non_empty(f.drop_last()));
            }
            start = i + 1;
        } else {
            assert(fields(next) == f.update(f.len() - 1, f.last().push(s@[i as int])));
            assert(fields(next).drop_last() == f.drop_last());
        }
        i = i + 1;
        assert(s@.subrange(start as int, i as int) == fields(s@.subrange(0, i as int)).last());
    }
    let ghost f = fields(s@.subrange(0, i as int));
    assert(s@.subrange(0, i as int) == s@);
    proof {
        lemma_non_empty_last(f);
    }
    if start < i {
        r.push((start, i));
        assert(non_empty(f) == non_empty(f.drop_last()).push(f.last()));
    } else {
        assert(non_empty(f) == non_empty(f.drop_last()));
    }
    r
}

/// Reads the server's mod manifest into `(name, expected size)` pairs.
///
/// `-` alone means no mods. Otherwise the text is split at every `;`, empty
/// tokens are dropped, the first half of the tokens are the names and the
/// second half the sizes, paired in order. An odd number of tokens, or a size
/// token that is not an unsigned decimal number fitting a `usize`, is an
/// error; of several bad size tokens the first is named.
pub fn parse_modlist(raw_list: &String) -> (r: Result<Vec<(String, usize)>, ParseError>)
    ensures
        is_no_mods_sentinel(raw_list@) ==> (r matches Ok(v) && v@.len() == 0),
        !is_no_mods_sentinel(raw_list@) ==> match r {
            Ok(v) => {
                &&& tokens(raw_list@).len() % 2 == 0
                &&& sizes_valid(tokens(raw_list@))
                &&& pairs_tokens(v@, tokens(raw_list@))
            },
            Err(ParseError::OddTokenCount(n)) => {
                &&& n == tokens(raw_list@).len()
                &&& n % 2 == 1
            },
            Err(ParseError::InvalidSize(tok)) => {
                &&& tokens(raw_list@).len() % 2 == 0
                &&& exists|k: int|
                    first_invalid_size(tokens(raw_list@), k) && tok@ == #[trigger] tokens(
                        raw_list@,
                    )[k]
            },
        },
        match r {
            Ok(v) => mod_entries(raw_list@) == Some(entries_view(v@)),
            Err(_) => mod_entries(raw_list@) is None,
        },
{
    let text = raw_list.as_str();
    let chars = chars_of(text);
    if chars.len() == 1 && chars[0] == '-' {
        assert(chars@ == seq!['-']);
        let empty: Vec<(String, usize)> = Vec::new();
        assert(entries_view(empty@) == Seq::<(Seq<char>, usize)>::empty());
        return Ok(empty);
    }
    assert(!is_no_mods_sentinel(raw_list@));
    let ghost t = tokens(raw_list@);
    let ranges = token_ranges(&chars);
    let n = ranges.len();
    if n % 2 == 1 {
        return Err(ParseError::OddTokenCount(n));
    }
    let half = n / 2;
    let mut sizes: Vec<usize> = Vec::new();
    let mut k: usize = half;
    while k < n
        invariant
            t == tokens(chars@),
            chars@ == text@,
            text@ == raw_list@,
            !is_no_mods_sentinel(raw_list@),
            n == ranges@.len() == t.len(),
            half == n / 2,
            n % 2 == 0,
            half <= k <= n,
            sizes@.len() == k - half,
            forall|j: int|
                0 <= j < ranges@.len() ==> {
                    &&& 0 <= (#[trigger] ranges@[j]).0 <= ranges@[j].1 <= chars@.len()
                    &&& chars@.subrange(ranges@[j].0 as int, ranges@[j].1 as int) == t[j]
                },
            forall|j: int| half <= j < k ==> size_of(#[trigger] t[j]) == Some(sizes@[j - half] as nat),
        decreases n - k,
    {
        let (lo, hi) = ranges[k];
        let token = slice_subrange(chars.as_slice(), lo, hi);
        match parse_decimal(token, usize::MAX) {
            Some(v) => {
                sizes.push(v);
            },
            None => {
                let bad = text.substring_char(lo, hi).to_owned();
                assert(token@ == t[k as int]);
                assert(bad@ == t[k as int]);
                assert(first_invalid_size(t, k as int));
                return Err(ParseError::InvalidSize(bad));
            },
        }
        k = k + 1;
    }
    let mut out: Vec<(String, usize)> = Vec::new();
    let mut i: usize = 0;
    while i < half
        invariant
            t == tokens(chars@),
            chars@ == text@,
            text@ == raw_list@,
            !is_no_mods_sentinel(raw_list@),
            n == ranges@.len() == t.len(),
            half == n / 2,
            n % 2 == 0,
            i <= half,
            sizes@.len() == half,
            out@.len() == i,
            forall|j: int|
                0 <= j < ranges@.len() ==> {
                    &&& 0 <= (#[trigger] ranges@[j]).0 <= ranges@[j].1 <= chars@.len()
                    &&& chars@.subrange(ranges@[j].0 as int, ranges@[j].1 as int) == t[j]
                },
            forall|j: int| half <= j < n ==> size_of(#[trigger] t[j]) == Some(sizes@[j - half] as nat),
            forall|j: int|
                0 <= j < i ==> (#[trigger] out@[j]).0@ == t[j] && out@[j].1 == sizes@[j],
        decreases half - i,
    {
        let (lo, hi) = ranges[i];
        let name = text.substring_char(lo, hi).to_owned();
        assert(name@ == t[i as int]);
        let ghost before = out@;
        out.push((name, sizes[i]));
        assert(forall|j: int| 0 <= j < i ==> out@[j] == before[j]);
        i = i + 1;
    }
    assert forall|j: int| 0 <= j < out@.len() implies #[trigger] out@[j].0@ == t[j] && size_of(
        t[t.len() / 2 + j],
    ) == Some(out@[j].1 as nat) by {
        assert(out@[j].0@ == t[j] && out@[j].1 == sizes@[j]);
        assert(half <= half + j < n);
        assert(size_of(t[half + j]) == Some(sizes@[half + j - half] as nat));
    }
    assert(entries_view(out@) == mod_entries(raw_list@)->0);
    Ok(out)
}

} // verus!
