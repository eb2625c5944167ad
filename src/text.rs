//! Text helpers over characters.

use vstd::prelude::*;
use vstd::string::{StrSliceExecFns, StringExecFns};

verus! {

/// The characters of a string, in a vector.
pub fn chars_of(s: &str) -> (r: Vec<char>)
    ensures
        r@ == s@,
{
    let n = s.unicode_len();
    let mut out: Vec<char> = Vec::new();
    let mut i: usize = 0;
    while i < n
        invariant
            n == s@.len(),
            i <= n,
            out@ == s@.take(i as int),
        decreases n - i,
    {
        let c = s.get_char(i);
        out.push(c);
        i = i + 1;
        assert(out@ =~= s@.take(i as int));
    }
    assert(s@.take(n as int) =~= s@);
    out
}

/// Whether two strings hold the same characters.
pub fn text_eq(a: &str, b: &str) -> (r: bool)
    ensures
        r == (a@ == b@),
{
    vec_eq(&chars_of(a), &chars_of(b))
}

/// `s` with every single quote doubled, as an SQL string literal needs.
pub open spec fn escape_quotes(s: Seq<char>) -> Seq<char>
    decreases s.len(),
{
    if s.len() == 0 {
        Seq::empty()
    } else if s.last() == '\'' {
        escape_quotes(s.drop_last()) + seq!['\'', '\'']
    } else {
        escape_quotes(s.drop_last()).push(s.last())
    }
}

/// `s` quoted as an SQL string literal.
pub open spec fn sql_literal(s: Seq<char>) -> Seq<char> {
    seq!['\''] + escape_quotes(s) + seq!['\'']
}

/// Writes `s` as an SQL string literal.
pub fn quote_sql(s: &str) -> (r: String)
    ensures
        r@ == sql_literal(s@),
{
    proof {
        reveal_strlit("'");
    }
    let n = s.unicode_len();
    let mut out = String::from_str("'");
    let mut start: usize = 0;
    let mut i: usize = 0;
    while i < n
        invariant
            n == s@.len(),
            start <= i <= n,
            out@ + s@.subrange(start as int, i as int) == seq!['\''] + escape_quotes(
                s@.take(i as int),
            ),
        decreases n - i,
    {
        let c = s.get_char(i);
        assert(s@.take(i + 1).drop_last() =~= s@.take(i as int));
        assert(s@.take(i + 1).last() == c);
        if c == '\'' {
            proof {
                reveal_strlit("'");
            }
            assert(s@.subrange(start as int, i + 1) =~= s@.subrange(start as int, i as int).push(c));
            assert(escape_quotes(s@.take(i + 1)) == escape_quotes(s@.take(i as int)) + seq!['\'', '\'']);
            assert("'"@ =~= seq!['\'']);
            let ghost o0 = out@;
            let ghost before = s@.subrange(start as int, i as int);
            let piece = s.substring_char(start, i + 1);
            out = out.concat(piece);
            out = out.concat("'");
            assert(out@ =~= (o0 + before).push('\'').push('\''));
            assert(out@ + s@.subrange(i + 1, i + 1) =~= seq!['\''] + escape_quotes(
                s@.take(i + 1),
            ));
            start = i + 1;
        } else {
            assert(s@.subrange(start as int, i + 1) =~= s@.subrange(start as int, i as int).push(c));
            assert(escape_quotes(s@.take(i + 1)) == escape_quotes(s@.take(i as int)).push(c));
            assert(out@ + s@.subrange(start as int, i + 1) =~= (out@ + s@.subrange(
                start as int,
                i as int,
            )).push(c));
            assert(out@ + s@.subrange(start as int, i + 1) =~= seq!['\''] + escape_quotes(
                s@.take(i + 1),
            ));
        }
        i = i + 1;
    }
    proof {
        reveal_strlit("'");
    }
    let rest = s.substring_char(start, n);
    out = out.concat(rest);
    out = out.concat("'");
    assert(s@.take(n as int) =~= s@);
    assert(out@ =~= sql_literal(s@));
    out
}

/// Whether `s` begins with `p`.
pub fn starts_with(s: &str, p: &str) -> (r: bool)
    ensures
        r == (p@.len() <= s@.len() && s@.take(p@.len() as int) == p@),
{
    let a = chars_of(s);
    let b = chars_of(p);
    if b.len() > a.len() {
        return false;
    }
    let mut i: usize = 0;
    while i < b.len()
        invariant
            a@ == s@,
            b@ == p@,
            b@.len() <= a@.len(),
            i <= b@.len(),
            a@.take(i as int) == b@.take(i as int),
        decreases b@.len() - i,
    {
        if a[i] != b[i] {
            assert(a@.take(b@.len() as int)[i as int] != b@[i as int]);
            return false;
        }
        i = i + 1;
        assert(a@.take(i as int) =~= a@.take(i - 1).push(a@[i - 1]));
        assert(b@.take(i as int) =~= b@.take(i - 1).push(b@[i - 1]));
    }
    assert(b@.take(i as int) =~= b@);
    true
}

/// Whether `k` occurs in `s` as a contiguous run.
pub open spec fn contains_text(s: Seq<char>, k: Seq<char>) -> bool {
    exists|i: int| 0 <= i && i + k.len() <= s.len() && #[trigger] s.subrange(i, i + k.len()) == k
}

/// Whether `needle` occurs in `hay`.
pub fn contains(hay: &str, needle: &str) -> (r: bool)
    ensures
        r == contains_text(hay@, needle@),
{
    let h = chars_of(hay);
    let k = chars_of(needle);
    if k.len() == 0 {
        assert(hay@.subrange(0int, 0int + needle@.len()) =~= needle@);
        return true;
    }
    if k.len() > h.len() {
        return false;
    }
    let hl = h.len();
    let last = hl - k.len();
    let mut i: usize = 0;
    while i <= last
        invariant
            hl == h@.len(),
            h@ == hay@,
            k@ == needle@,
            k@.len() > 0,
            last == h@.len() - k@.len(),
            i <= last + 1,
            forall|j: int| 0 <= j < i ==> #[trigger] h@.subrange(j, j + k@.len()) != k@,
        decreases last + 1 - i,
    {
        let mut m: usize = 0;
        while m < k.len() && h[i + m] == k[m]
            invariant
                hl == h@.len(),
                h@ == hay@,
                k@ == needle@,
                i <= last,
                last == h@.len() - k@.len(),
                m <= k@.len(),
                h@.subrange(i as int, i + m) == k@.take(m as int),
            decreases k@.len() - m,
        {
            m = m + 1;
            assert(h@.subrange(i as int, i + m) =~= k@.take(m as int));
        }
        if m == k.len() {
            assert(k@.take(m as int) =~= k@);
            assert(h@.subrange(i as int, i + k@.len()) == k@);
            return true;
        }
        assert(h@.subrange(i as int, i + k@.len())[m as int] != k@[m as int]);
        i = i + 1;
    }
    false
}

/// The pieces of `s` between commas, as splitting on `,` gives them.
pub open spec fn comma_pieces(s: Seq<char>) -> Seq<Seq<char>>
    decreases s.len(),
{
    if s.len() == 0 {
        seq![Seq::empty()]
    } else {
        let p = comma_pieces(s.drop_last());
        if s.last() == ',' {
            p.push(Seq::empty())
        } else {
            p.update(p.len() - 1, p.last().push(s.last()))
        }
    }
}

proof fn lemma_comma_pieces_nonempty(s: Seq<char>)
    ensures
        comma_pieces(s).len() >= 1,
    decreases s.len(),
{
    if s.len() > 0 {
        lemma_comma_pieces_nonempty(s.drop_last());
    }
}

/// Whether `id` is one of the comma-separated entries of `list`.
pub fn in_comma_list(list: &str, id: &str) -> (r: bool)
    ensures
        r == comma_pieces(list@).contains(id@),
{
    let s = chars_of(list);
    let want = chars_of(id);
    let n = s.len();
    let mut found = false;
    let mut cur: Vec<char> = Vec::new();
    let mut i: usize = 0;
    proof {
        lemma_comma_pieces_nonempty(s@.take(0));
    }
    assert(comma_pieces(s@.take(0)) =~= seq![Seq::<char>::empty()]);
    while i < n
        invariant
            s@ == list@,
            want@ == id@,
            n == s@.len(),
            i <= n,
            comma_pieces(s@.take(i as int)).len() >= 1,
            cur@ == comma_pieces(s@.take(i as int)).last(),
            found == comma_pieces(s@.take(i as int)).drop_last().contains(want@),
        decreases n - i,
    {
        let ghost p = comma_pieces(s@.take(i as int));
        assert(s@.take(i + 1).drop_last() =~= s@.take(i as int));
        assert(s@.take(i + 1).last() == s@[i as int]);
        let c = s[i];
        if c == ',' {
            let done = vec_eq(&cur, &want);
            found = found || done;
            cur = Vec::new();
            let ghost q = p.push(Seq::<char>::empty());
            assert(q.drop_last() =~= p);
            assert(p =~= p.drop_last().push(p.last()));
            assert(p.contains(want@) == (p.drop_last().contains(want@) || p.last() == want@)) by {
                if p.last() == want@ {
                    assert(p[p.len() - 1] == want@);
                }
                if p.contains(want@) {
                    let j = choose|j: int| 0 <= j < p.len() && p[j] == want@;
                    if j < p.len() - 1 {
                        assert(p.drop_last()[j] == want@);
                    }
                }
                if p.drop_last().contains(want@) {
                    let j = choose|j: int| 0 <= j < p.drop_last().len() && p.drop_last()[j] == want@;
                    assert(p[j] == want@);
                }
            }
        } else {
            let ghost before = cur@;
            cur.push(c);
            let ghost q = p.update(p.len() - 1, p.last().push(c));
            assert(q.drop_last() =~= p.drop_last());
            assert(cur@ =~= before.push(c));
        }
        i = i + 1;
    }
    let last_match = vec_eq(&cur, &want);
    let ghost p = comma_pieces(s@.take(n as int));
    assert(s@.take(n as int) =~= s@);
    assert(p =~= p.drop_last().push(p.last()));
    assert(p.contains(want@) == (p.drop_last().contains(want@) || p.last() == want@)) by {
        if p.last() == want@ {
            assert(p[p.len() - 1] == want@);
        }
        if p.contains(want@) {
            let j = choose|j: int| 0 <= j < p.len() && p[j] == want@;
            if j < p.len() - 1 {
                assert(p.drop_last()[j] == want@);
            }
        }
        if p.drop_last().contains(want@) {
            let j = choose|j: int| 0 <= j < p.drop_last().len() && p.drop_last()[j] == want@;
            assert(p[j] == want@);
        }
    }
    found || last_match
}

/// Whether two character vectors are equal.
pub fn vec_eq(a: &Vec<char>, b: &Vec<char>) -> (r: bool)
    ensures
        r == (a@ == b@),
{
    if a.len() != b.len() {
        return false;
    }
    let mut i: usize = 0;
    while i < a.len()
        invariant
            a@.len() == b@.len(),
            i <= a@.len(),
            a@.take(i as int) == b@.take(i as int),
        decreases a@.len() - i,
    {
        if a[i] != b[i] {
            assert(a@[i as int] != b@[i as int]);
            return false;
        }
        i = i + 1;
        assert(a@.take(i as int) =~= a@.take(i - 1).push(a@[i - 1]));
        assert(b@.take(i as int) =~= b@.take(i - 1).push(b@[i - 1]));
    }
    assert(a@.take(i as int) =~= a@);
    assert(b@.take(i as int) =~= b@);
    true
}

} // verus!
