//! Text utilities shared by the recognizer and the differ: splitting a
//! snapshot into lines, trimming whitespace, and joining lines back
//! together. Every executable function is proved against a spec-level
//! model of the same operation on `Seq<char>`.

use vstd::prelude::*;
use vstd::string::StrSliceExecFns;
use vstd::string::StringExecFns;

verus! {

/// The Unicode white-space characters, the set the standard library's
/// `char::is_whitespace` recognizes.
pub open spec fn is_space_char(c: char) -> bool {
    ||| c == '\u{0009}'
    ||| c == '\u{000A}'
    ||| c == '\u{000B}'
    ||| c == '\u{000C}'
    ||| c == '\u{000D}'
    ||| c == '\u{0020}'
    ||| c == '\u{0085}'
    ||| c == '\u{00A0}'
    ||| c == '\u{1680}'
    ||| c == '\u{2000}'
    ||| c == '\u{2001}'
    ||| c == '\u{2002}'
    ||| c == '\u{2003}'
    ||| c == '\u{2004}'
    ||| c == '\u{2005}'
    ||| c == '\u{2006}'
    ||| c == '\u{2007}'
    ||| c == '\u{2008}'
    ||| c == '\u{2009}'
    ||| c == '\u{200A}'
    ||| c == '\u{2028}'
    ||| c == '\u{2029}'
    ||| c == '\u{202F}'
    ||| c == '\u{205F}'
    ||| c == '\u{3000}'
}

/// Executable test for `is_space_char`.
pub fn is_space(c: char) -> (r: bool)
    ensures
        r == is_space_char(c),
{
    c == '\u{0009}' || c == '\u{000A}' || c == '\u{000B}' || c == '\u{000C}' || c == '\u{000D}'
        || c == '\u{0020}' || c == '\u{0085}' || c == '\u{00A0}' || c == '\u{1680}'
        || c == '\u{2000}' || c == '\u{2001}' || c == '\u{2002}' || c == '\u{2003}'
        || c == '\u{2004}' || c == '\u{2005}' || c == '\u{2006}' || c == '\u{2007}'
        || c == '\u{2008}' || c == '\u{2009}' || c == '\u{200A}' || c == '\u{2028}'
        || c == '\u{2029}' || c == '\u{202F}' || c == '\u{205F}' || c == '\u{3000}'
}

/// What is left of `s` after dropping leading white space.
pub open spec fn trim_start_spec(s: Seq<char>) -> Seq<char>
    decreases s.len(),
{
    if s.len() > 0 && is_space_char(s[0]) {
        trim_start_spec(s.skip(1))
    } else {
        s
    }
}

/// What is left of `s` after dropping trailing white space.
pub open spec fn trim_end_spec(s: Seq<char>) -> Seq<char>
    decreases s.len(),
{
    if s.len() > 0 && is_space_char(s[s.len() - 1]) {
        trim_end_spec(s.drop_last())
    } else {
        s
    }
}

/// What is left of `s` after dropping leading and trailing white space.
pub open spec fn trim_spec(s: Seq<char>) -> Seq<char> {
    trim_end_spec(trim_start_spec(s))
}

proof fn lemma_trim_start_at(s: Seq<char>, a: int)
    requires
        0 <= a <= s.len(),
        forall|j: int| 0 <= j < a ==> is_space_char(s[j]),
        a < s.len() ==> !is_space_char(s[a]),
    ensures
        trim_start_spec(s) == s.skip(a),
    decreases a,
{
    if a == 0 {
        assert(s.skip(0) =~= s);
    } else {
        lemma_trim_start_at(s.skip(1), a - 1);
        assert(s.skip(1).skip(a - 1) =~= s.skip(a));
    }
}

proof fn lemma_trim_end_at(s: Seq<char>, b: int)
    requires
        0 <= b <= s.len(),
        forall|j: int| b <= j < s.len() ==> is_space_char(s[j]),
        b > 0 ==> !is_space_char(s[b - 1]),
    ensures
        trim_end_spec(s) == s.take(b),
    decreases s.len() - b,
{
    if b < s.len() {
        lemma_trim_end_at(s.drop_last(), b);
        assert(s.drop_last().take(b) =~= s.take(b));
    } else {
        assert(s.take(b) =~= s);
    }
}

/// Removes leading and trailing white space, as the standard trim does.
pub fn trim_str(s: &str) -> (r: String)
    ensures
        r@ == trim_spec(s@),
{
    let n = s.unicode_len();
    let mut a: usize = 0;
    while a < n && is_space(s.get_char(a))
        invariant
            n == s@.len(),
            a <= n,
            forall|j: int| 0 <= j < a ==> is_space_char(s@[j]),
        decreases n - a,
    {
        a = a + 1;
    }
    let mut b: usize = n;
    while b > a && is_space(s.get_char(b - 1))
        invariant
            n == s@.len(),
            a <= b <= n,
            forall|j: int| b <= j < n ==> is_space_char(s@[j]),
        decreases b,
    {
        b = b - 1;
    }
    proof {
        lemma_trim_start_at(s@, a as int);
        let t = s@.skip(a as int);
        assert forall|j: int| (b - a) <= j < t.len() implies is_space_char(t[j]) by {
            assert(t[j] == s@[j + a]);
        }
        if b > a {
            assert(t[b - a - 1] == s@[b - 1]);
        }
        lemma_trim_end_at(t, b - a);
        assert(t.take(b - a) =~= s@.subrange(a as int, b as int));
    }
    let piece = s.substring_char(a, b);
    piece.to_owned()
}

/// Drops one trailing carriage return, if present.
pub open spec fn strip_cr(s: Seq<char>) -> Seq<char> {
    if s.len() > 0 && s[s.len() - 1] == '\r' {
        s.drop_last()
    } else {
        s
    }
}

/// The lines of `s`, as the standard library's `lines` yields them: split
/// at `\n`, with a carriage return directly before the split dropped, and
/// no empty segment after a final line break.
pub open spec fn lines_spec(s: Seq<char>) -> Seq<Seq<char>>
    decreases s.len(),
{
    if s.len() == 0 {
        Seq::empty()
    } else if s[0] == '\n' {
        seq![Seq::<char>::empty()] + lines_spec(s.skip(1))
    } else if s[0] == '\r' && s.len() >= 2 && s[1] == '\n' {
        seq![Seq::<char>::empty()] + lines_spec(s.skip(2))
    } else {
        let rest = lines_spec(s.skip(1));
        if rest.len() == 0 {
            seq![seq![s[0]]]
        } else {
            seq![seq![s[0]] + rest[0]] + rest.skip(1)
        }
    }
}

/// A string with no line break has exactly one line (or none when empty).
pub proof fn lemma_lines_no_break(s: Seq<char>)
    requires
        forall|j: int| 0 <= j < s.len() ==> s[j] != '\n',
    ensures
        lines_spec(s) == if s.len() == 0 {
            Seq::<Seq<char>>::empty()
        } else {
            seq![s]
        },
    decreases s.len(),
{
    if s.len() > 0 {
        let t = s.skip(1);
        assert(forall|j: int| 0 <= j < t.len() ==> t[j] == s[j + 1]);
        lemma_lines_no_break(t);
        if t.len() == 0 {
            assert(seq![s[0]] =~= s);
        } else {
            assert(seq![s[0]] + t =~= s);
        }
    }
}

/// Splitting at the first line break: everything before it is the first
/// line (with a trailing carriage return dropped), and the rest of the
/// lines are the lines after it.
pub proof fn lemma_lines_segment(s: Seq<char>, k: int)
    requires
        0 <= k < s.len(),
        s[k] == '\n',
        forall|j: int| 0 <= j < k ==> s[j] != '\n',
    ensures
        lines_spec(s) == seq![strip_cr(s.take(k))] + lines_spec(s.skip(k + 1)),
    decreases k,
{
    if k == 0 {
        assert(strip_cr(s.take(0)) =~= Seq::<char>::empty());
        assert(seq![strip_cr(s.take(0))] =~~= seq![Seq::<char>::empty()]);
    } else {
        assert(s[0] != '\n');
        if s[0] == '\r' && s.len() >= 2 && s[1] == '\n' {
            assert(k == 1);
            assert(s.take(1) =~= seq![s[0]]);
            assert(strip_cr(s.take(1)) =~= Seq::<char>::empty());
            assert(seq![strip_cr(s.take(1))] =~~= seq![Seq::<char>::empty()]);
        } else {
            let t = s.skip(1);
            assert(forall|j: int| 0 <= j < t.len() ==> t[j] == s[j + 1]);
            lemma_lines_segment(t, k - 1);
            let rest = lines_spec(t);
            assert(rest == seq![strip_cr(t.take(k - 1))] + lines_spec(t.skip(k)));
            assert(rest.len() >= 1);
            assert(t.skip(k) =~= s.skip(k + 1));
            assert(rest.skip(1) =~= lines_spec(s.skip(k + 1)));
            // the first line of s is s[0] prepended to the first line of t
            if k == 1 {
                // t.take(0) is empty; s[0] is not '\r' here, since s[1] == '\n'
                // would have taken the branch above
                assert(!(s[0] == '\r'));
                assert(t.take(0) =~= Seq::<char>::empty());
                assert(rest[0] == strip_cr(t.take(0)));
                assert(seq![s[0]] + rest[0] =~= s.take(1));
                assert(strip_cr(s.take(1)) == s.take(1));
            } else {
                assert(rest[0] == strip_cr(t.take(k - 1)));
                let u = t.take(k - 1);
                assert(u.len() == k - 1 > 0);
                assert(u[u.len() - 1] == s[k - 1]);
                let w = s.take(k);
                assert(w[w.len() - 1] == s[k - 1]);
                if s[k - 1] == '\r' {
                    assert(seq![s[0]] + u.drop_last() =~= w.drop_last());
                } else {
                    assert(seq![s[0]] + u =~= w);
                }
            }
            assert(lines_spec(s) == seq![seq![s[0]] + rest[0]] + rest.skip(1));
            assert(seq![seq![s[0]] + rest[0]] =~~= seq![strip_cr(s.take(k))]);
        }
    }
}

/// Splits `s` into its lines.
pub fn split_lines(s: &str) -> (r: Vec<String>)
    ensures
        r.deep_view() == lines_spec(s@),
{
    let n = s.unicode_len();
    let mut res: Vec<String> = Vec::new();
    let mut start: usize = 0;
    let mut i: usize = 0;
    proof {
        assert(s@.skip(0) =~= s@);
        assert(res.deep_view() + lines_spec(s@) =~~= lines_spec(s@));
    }
    while i < n
        invariant
            n == s@.len(),
            start <= i <= n,
            forall|j: int| start <= j < i ==> s@[j] != '\n',
            lines_spec(s@) == res.deep_view() + lines_spec(s@.skip(start as int)),
        decreases n - i,
    {
        if s.get_char(i) == '\n' {
            let ghost pre = res.deep_view();
            let line: &str = if i > start && s.get_char(i - 1) == '\r' {
                s.substring_char(start, i - 1)
            } else {
                s.substring_char(start, i)
            };
            res.push(line.to_owned());
            proof {
                let t = s@.skip(start as int);
                let k = i - start;
                assert(forall|j: int| 0 <= j < t.len() ==> t[j] == s@[j + start]);
                lemma_lines_segment(t, k);
                assert(t.take(k) =~= s@.subrange(start as int, i as int));
                if i > start && s@[i - 1] == '\r' {
                    assert(strip_cr(t.take(k)) =~= s@.subrange(start as int, i - 1));
                } else {
                    assert(strip_cr(t.take(k)) =~= s@.subrange(start as int, i as int));
                }
                assert(line@ == strip_cr(t.take(k)));
                assert(t.skip(k + 1) =~= s@.skip(i + 1));
                assert(res.deep_view() =~~= pre.push(line@));
                assert(pre + lines_spec(t) =~~= res.deep_view() + lines_spec(s@.skip(i + 1)));
            }
            start = i + 1;
        }
        i = i + 1;
    }
    if start < n {
        let ghost pre = res.deep_view();
        let line = s.substring_char(start, n);
        res.push(line.to_owned());
        proof {
            let t = s@.skip(start as int);
            assert(forall|j: int| 0 <= j < t.len() ==> t[j] == s@[j + start]);
            lemma_lines_no_break(t);
            assert(line@ =~= t);
            assert(res.deep_view() =~~= pre.push(line@));
            assert(pre + lines_spec(t) =~~= res.deep_view());
            assert(lines_spec(s@) =~~= res.deep_view());
        }
    } else {
        proof {
            assert(s@.skip(start as int).len() == 0);
            assert(res.deep_view() + lines_spec(s@.skip(start as int)) =~~= res.deep_view());
        }
    }
    res
}

/// The lines joined with a single line break between them.
pub open spec fn join_lines(ls: Seq<Seq<char>>) -> Seq<char>
    decreases ls.len(),
{
    if ls.len() == 0 {
        Seq::empty()
    } else if ls.len() == 1 {
        ls[0]
    } else {
        ls[0] + seq!['\n'] + join_lines(ls.skip(1))
    }
}

pub proof fn lemma_join_push(ls: Seq<Seq<char>>, x: Seq<char>)
    ensures
        join_lines(ls.push(x)) == if ls.len() == 0 {
            x
        } else {
            join_lines(ls) + seq!['\n'] + x
        },
    decreases ls.len(),
{
    let p = ls.push(x);
    if ls.len() == 0 {
        assert(p.len() == 1);
        assert(p[0] == x);
    } else if ls.len() == 1 {
        assert(p.len() == 2);
        assert(p.skip(1) =~= seq![x]);
        assert(join_lines(p.skip(1)) == x);
        assert(p[0] == ls[0]);
        assert(join_lines(ls) == ls[0]);
    } else {
        lemma_join_push(ls.skip(1), x);
        assert(p.skip(1) =~= ls.skip(1).push(x));
        assert(p[0] == ls[0]);
        assert(ls[0] + seq!['\n'] + (join_lines(ls.skip(1)) + seq!['\n'] + x) =~= (ls[0]
            + seq!['\n'] + join_lines(ls.skip(1))) + seq!['\n'] + x);
    }
}

/// Joins the given lines with single line breaks.
pub fn join_with_breaks(v: &Vec<String>) -> (r: String)
    ensures
        r@ == join_lines(v.deep_view()),
{
    let mut out = String::new();
    let mut i: usize = 0;
    while i < v.len()
        invariant
            i <= v.len(),
            out@ == join_lines(v.deep_view().take(i as int)),
        decreases v.len() - i,
    {
        if i > 0 {
            let br = "\n";
            proof {
                reveal_strlit("\n");
                assert(br@ =~= seq!['\n']);
            }
            out.append(br);
        }
        out.append(v[i].as_str());
        proof {
            let dv = v.deep_view();
            lemma_join_push(dv.take(i as int), dv[i as int]);
            assert(dv.take(i + 1) =~= dv.take(i as int).push(dv[i as int]));
        }
        i = i + 1;
    }
    proof {
        assert(v.deep_view().take(v.len() as int) =~= v.deep_view());
    }
    out
}

/// Whether some element of `v` has exactly the characters of `l`.
pub fn contains_line(v: &Vec<String>, l: &String) -> (r: bool)
    ensures
        r == v.deep_view().contains(l@),
{
    let mut i: usize = 0;
    while i < v.len()
        invariant
            i <= v.len(),
            forall|j: int| 0 <= j < i ==> v.deep_view()[j] != l@,
        decreases v.len() - i,
    {
        let cand: &String = &v[i];
        if cand.eq(l) {
            proof {
                assert(v.deep_view()[i as int] == l@);
            }
            return true;
        }
        i = i + 1;
    }
    proof {
        assert(forall|j: int| 0 <= j < v.deep_view().len() ==> v.deep_view()[j] != l@);
    }
    false
}

} // verus!
