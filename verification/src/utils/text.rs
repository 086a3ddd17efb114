//! Line splitting, prefix tests, pattern removal and decimal numbers on
//! text, each stated over the characters of the text.

use vstd::prelude::*;

verus! {

/// The lines of `s`: split at `\n` or at `\r\n`, without the line endings;
/// a final line ending is optional, and the empty text has no lines.
pub open spec fn lines_of(s: Seq<char>) -> Seq<Seq<char>>
    decreases s.len(),
{
    if s.len() == 0 {
        seq![]
    } else if s[0] == '\n' {
        seq![Seq::<char>::empty()] + lines_of(s.subrange(1, s.len() as int))
    } else if s.len() >= 2 && s[0] == '\r' && s[1] == '\n' {
        seq![Seq::<char>::empty()] + lines_of(s.subrange(2, s.len() as int))
    } else {
        let rest = lines_of(s.subrange(1, s.len() as int));
        if rest.len() == 0 {
            seq![seq![s[0]]]
        } else {
            rest.update(0, seq![s[0]] + rest[0])
        }
    }
}

/// Whether `s` begins with `p`.
pub open spec fn starts_with(s: Seq<char>, p: Seq<char>) -> bool {
    p.len() <= s.len() && s.subrange(0, p.len() as int) == p
}

/// `s` with every match of the non-empty pattern `p` taken out, the
/// matches found from the left and not overlapping.
pub open spec fn without(s: Seq<char>, p: Seq<char>) -> Seq<char>
    decreases s.len(),
{
    if p.len() == 0 || s.len() < p.len() {
        s
    } else if s.subrange(0, p.len() as int) == p {
        without(s.subrange(p.len() as int, s.len() as int), p)
    } else {
        seq![s[0]] + without(s.subrange(1, s.len() as int), p)
    }
}

/// Whether `p` occurs somewhere in `s`.
pub open spec fn occurs_in(p: Seq<char>, s: Seq<char>) -> bool {
    exists|i: int| 0 <= i && i + p.len() <= s.len() && #[trigger] s.subrange(i, i + p.len()) == p
}

/// `str::lines`, each line copied into a `String`. Its documentation says
/// that lines end at `\n` or `\r\n`, that the endings are not part of the
/// lines and that a final ending is optional: `lines_of` states exactly
/// that.
#[verifier::external_body]
pub(crate) fn text_lines(s: &str) -> (lines: Vec<String>)
    ensures
        lines@.len() == lines_of(s@).len(),
        forall|i: int| 0 <= i < lines@.len() ==> #[trigger] lines@[i]@ == lines_of(s@)[i],
{
    s.lines().map(String::from).collect()
}

/// `str::replace` with an empty replacement: every match of `pattern`,
/// taken from the left without overlap, is removed.
#[verifier::external_body]
pub(crate) fn remove_all(s: &str, pattern: &str) -> (r: String)
    requires
        pattern@.len() > 0,
    ensures
        r@ == without(s@, pattern@),
{
    s.replace(pattern, "")
}

/// Whether `s` begins with `p`, compared character by character.
pub(crate) fn has_prefix(s: &str, p: &str) -> (b: bool)
    ensures
        b == starts_with(s@, p@),
{
    let n = p.unicode_len();
    if s.unicode_len() < n {
        return false;
    }
    let mut i: usize = 0;
    while i < n
        invariant
            n == p@.len(),
            n <= s@.len(),
            i <= n,
            forall|j: int| 0 <= j < i ==> s@[j] == p@[j],
        decreases n - i,
    {
        if s.get_char(i) != p.get_char(i) {
            assert(s@.subrange(0, n as int)[i as int] != p@[i as int]);
            return false;
        }
        i = i + 1;
    }
    assert(s@.subrange(0, n as int) =~= p@);
    true
}

/// Taking the pattern off the front of a text leaves the rest to be
/// searched.
pub proof fn lemma_without_prefix(p: Seq<char>, s: Seq<char>)
    requires
        p.len() > 0,
    ensures
        without(p + s, p) == without(s, p),
{
    assert((p + s).subrange(0, p.len() as int) =~= p);
    assert((p + s).subrange(p.len() as int, (p + s).len() as int) =~= s);
}

/// A text in which the pattern never occurs is left as it is.
pub proof fn lemma_without_absent(s: Seq<char>, p: Seq<char>)
    requires
        p.len() > 0,
        !occurs_in(p, s),
    ensures
        without(s, p) == s,
    decreases s.len(),
{
    if s.len() >= p.len() {
        assert(s.subrange(0, 0 + p.len() as int) != p);
        let t = s.subrange(1, s.len() as int);
        assert forall|i: int| 0 <= i && i + p.len() <= t.len() implies #[trigger] t.subrange(i, i + p.len()) != p by {
            assert(t.subrange(i, i + p.len()) =~= s.subrange(i + 1, i + 1 + p.len()));
        }
        lemma_without_absent(t, p);
        assert(seq![s[0]] + t =~= s);
    }
}

/// A text with no `\n` and not ending in `\r`, followed by `\n` and more
/// text, is one line followed by the lines of the rest.
pub proof fn lemma_lines_of_first(a: Seq<char>, b: Seq<char>)
    requires
        !a.contains('\n'),
        a.len() > 0 ==> a.last() != '\r',
    ensures
        lines_of(a + seq!['\n'] + b) == seq![a] + lines_of(b),
    decreases a.len(),
{
    let s = a + seq!['\n'] + b;
    if a.len() == 0 {
        assert(s.subrange(1, s.len() as int) =~= b);
        assert(s[0] == '\n');
        assert(a =~= Seq::<char>::empty());
        assert(lines_of(s) == seq![Seq::<char>::empty()] + lines_of(b));
    } else {
        let a1 = a.subrange(1, a.len() as int);
        assert(s.subrange(1, s.len() as int) =~= a1 + seq!['\n'] + b);
        assert(!a1.contains('\n')) by {
            if a1.contains('\n') {
                let k = choose|k: int| 0 <= k < a1.len() && a1[k] == '\n';
                assert(a[k + 1] == '\n');
            }
        }
        if a1.len() > 0 {
            assert(a1.last() == a.last());
        }
        lemma_lines_of_first(a1, b);
        assert(s[0] == a[0]);
        assert(a[0] != '\n') by {
            if a[0] == '\n' {
                assert(a.contains('\n'));
            }
        }
        if a.len() == 1 {
            assert(s[1] == '\n');
            assert(a[0] != '\r');
        } else {
            assert(s[1] == a[1]);
            assert(a[1] != '\n') by {
                if a[1] == '\n' {
                    assert(a.contains('\n'));
                }
            }
        }
        assert(seq![a[0]] + a1 =~= a);
        let rest = lines_of(s.subrange(1, s.len() as int));
        assert(rest == seq![a1] + lines_of(b));
        assert(lines_of(s) == rest.update(0, seq![s[0]] + rest[0]));
        assert((seq![a] + lines_of(b)) =~= (seq![a1] + lines_of(b)).update(0, seq![a[0]] + a1));
    }
}

/// A non-empty text with no `\n` is a single line.
pub proof fn lemma_lines_of_single(a: Seq<char>)
    requires
        a.len() > 0,
        !a.contains('\n'),
    ensures
        lines_of(a) == seq![a],
    decreases a.len(),
{
    let a1 = a.subrange(1, a.len() as int);
    assert(a[0] != '\n') by {
        if a[0] == '\n' {
            assert(a.contains('\n'));
        }
    }
    if a.len() >= 2 {
        assert(a[1] != '\n') by {
            if a[1] == '\n' {
                assert(a.contains('\n'));
            }
        }
    }
    if a1.len() > 0 {
        assert(!a1.contains('\n')) by {
            if a1.contains('\n') {
                let k = choose|k: int| 0 <= k < a1.len() && a1[k] == '\n';
                assert(a[k + 1] == '\n');
            }
        }
        lemma_lines_of_single(a1);
        assert(seq![a[0]] + a1 =~= a);
        assert(lines_of(a) == lines_of(a1).update(0, seq![a[0]] + lines_of(a1)[0]));
        assert(seq![a1].update(0, seq![a[0]] + a1) =~= seq![a]);
    } else {
        assert(seq![a[0]] =~= a);
        assert(lines_of(a1) == Seq::<Seq<char>>::empty());
    }
}

/// The decimal digit for `d`.
pub open spec fn digit_char(d: nat) -> char {
    if d == 0 {
        '0'
    } else if d == 1 {
        '1'
    } else if d == 2 {
        '2'
    } else if d == 3 {
        '3'
    } else if d == 4 {
        '4'
    } else if d == 5 {
        '5'
    } else if d == 6 {
        '6'
    } else if d == 7 {
        '7'
    } else if d == 8 {
        '8'
    } else {
        '9'
    }
}

/// `n` written in decimal, without leading zeros.
pub open spec fn decimal(n: nat) -> Seq<char>
    decreases n,
{
    if n < 10 {
        seq![digit_char(n)]
    } else {
        decimal(n / 10) + seq![digit_char(n % 10)]
    }
}

fn digit_str(d: u64) -> (s: &'static str)
    requires
        d < 10,
    ensures
        s@ == seq![digit_char(d as nat)],
{
    proof {
        reveal_strlit("0");
        reveal_strlit("1");
        reveal_strlit("2");
        reveal_strlit("3");
        reveal_strlit("4");
        reveal_strlit("5");
        reveal_strlit("6");
        reveal_strlit("7");
        reveal_strlit("8");
        reveal_strlit("9");
    }
    let s = if d == 0 {
        "0"
    } else if d == 1 {
        "1"
    } else if d == 2 {
        "2"
    } else if d == 3 {
        "3"
    } else if d == 4 {
        "4"
    } else if d == 5 {
        "5"
    } else if d == 6 {
        "6"
    } else if d == 7 {
        "7"
    } else if d == 8 {
        "8"
    } else {
        "9"
    };
    assert(s@ =~= seq![digit_char(d as nat)]);
    s
}

/// Appends `n` in decimal.
pub(crate) fn append_decimal(t: &mut String, n: u64)
    ensures
        final(t)@ == old(t)@ + decimal(n as nat),
    decreases n,
{
    if n >= 10 {
        append_decimal(t, n / 10);
    }
    t.append(digit_str(n % 10));
    assert(final(t)@ =~= old(t)@ + decimal(n as nat));
}

/// A decimal number holds no line break and ends in a digit.
pub proof fn lemma_decimal_digits(n: nat)
    ensures
        decimal(n).len() > 0,
        !decimal(n).contains('\n'),
        decimal(n).last() != '\r',
    decreases n,
{
    if n >= 10 {
        lemma_decimal_digits(n / 10);
        let d = decimal(n / 10) + seq![digit_char(n % 10)];
        assert(!d.contains('\n')) by {
            if d.contains('\n') {
                let k = choose|k: int| 0 <= k < d.len() && d[k] == '\n';
                if k < decimal(n / 10).len() {
                    assert(decimal(n / 10).contains('\n'));
                }
            }
        }
    }
}

} // verus!
