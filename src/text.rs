//! Text building blocks of the query language: decimal numerals, quoted
//! string literals, and separator-joined lists.
use vstd::prelude::*;

verus! {

/// The ten decimal digits, in order.
pub open spec fn digits() -> Seq<char> {
    seq!['0', '1', '2', '3', '4', '5', '6', '7', '8', '9']
}

/// Decimal numeral of a natural number, without leading zeros.
pub open spec fn nat_text(n: nat) -> Seq<char>
    decreases n,
{
    if n < 10 {
        seq![digits()[n as int]]
    } else {
        nat_text(n / 10) + seq![digits()[(n % 10) as int]]
    }
}

/// Decimal numeral of an integer: a leading `-` for negative values.
pub open spec fn int_text(i: int) -> Seq<char> {
    if i < 0 {
        seq!['-'] + nat_text((-i) as nat)
    } else {
        nat_text(i as nat)
    }
}

/// `s` with every single quote doubled and every other character kept.
pub open spec fn escape_quotes(s: Seq<char>) -> Seq<char>
    decreases s.len(),
{
    if s.len() == 0 {
        Seq::empty()
    } else if s.last() == '\'' {
        escape_quotes(s.drop_last()) + seq!['\'', '\'']
    } else {
        escape_quotes(s.drop_last()) + seq![s.last()]
    }
}

/// A string literal: `s` escaped and wrapped in single quotes.
pub open spec fn quoted(s: Seq<char>) -> Seq<char> {
    seq!['\''] + escape_quotes(s) + seq!['\'']
}

/// The number of times `c` occurs in `s`.
pub open spec fn count_char(s: Seq<char>, c: char) -> nat
    decreases s.len(),
{
    if s.len() == 0 {
        0
    } else {
        count_char(s.drop_last(), c) + if s.last() == c {
            1nat
        } else {
            0nat
        }
    }
}

/// `s` with every single quote taken out.
pub open spec fn without_quotes(s: Seq<char>) -> Seq<char> {
    s.filter(|c: char| c != '\'')
}

/// The parts in order, with `sep` between each two neighbours.
pub open spec fn join(parts: Seq<Seq<char>>, sep: Seq<char>) -> Seq<char>
    decreases parts.len(),
{
    if parts.len() == 0 {
        Seq::empty()
    } else if parts.len() == 1 {
        parts[0]
    } else {
        join(parts.drop_last(), sep) + sep + parts.last()
    }
}

/// Counting is additive over concatenation.
pub proof fn lemma_count_char_add(a: Seq<char>, b: Seq<char>, c: char)
    ensures
        count_char(a + b, c) == count_char(a, c) + count_char(b, c),
    decreases b.len(),
{
    if b.len() == 0 {
        assert(a + b =~= a);
    } else {
        lemma_count_char_add(a, b.drop_last(), c);
        assert((a + b).drop_last() =~= a + b.drop_last());
    }
}

/// Escaping doubles the number of quotes.
pub proof fn lemma_escape_quote_count(s: Seq<char>)
    ensures
        count_char(escape_quotes(s), '\'') == 2 * count_char(s, '\''),
    decreases s.len(),
{
    if s.len() > 0 {
        lemma_escape_quote_count(s.drop_last());
        let tail = if s.last() == '\'' {
            seq!['\'', '\'']
        } else {
            seq![s.last()]
        };
        lemma_count_char_add(escape_quotes(s.drop_last()), tail, '\'');
        reveal_with_fuel(count_char, 3);
        if tail.len() == 1 {
            assert(tail.drop_last() =~= Seq::<char>::empty());
        } else {
            assert(tail.drop_last() =~= seq!['\'']);
            assert(tail.drop_last().drop_last() =~= Seq::<char>::empty());
        }
    }
}

/// Escaping changes nothing but the quotes.
pub proof fn lemma_escape_keeps_other_chars(s: Seq<char>)
    ensures
        without_quotes(escape_quotes(s)) == without_quotes(s),
    decreases s.len(),
{
    broadcast use vstd::seq_lib::group_filter_ensures;

    if s.len() > 0 {
        lemma_escape_keeps_other_chars(s.drop_last());
        let tail = if s.last() == '\'' {
            seq!['\'', '\'']
        } else {
            seq![s.last()]
        };
        let f = |c: char| c != '\'';
        Seq::filter_distributes_over_add(escape_quotes(s.drop_last()), tail, f);
        assert(s =~= s.drop_last() + seq![s.last()]);
        Seq::filter_distributes_over_add(s.drop_last(), seq![s.last()], f);
        reveal_with_fuel(Seq::filter, 3);
        if tail.len() == 2 {
            assert(tail.drop_last() =~= seq!['\'']);
            assert(tail.drop_last().drop_last() =~= Seq::<char>::empty());
            assert(tail.filter(f) =~= Seq::<char>::empty());
            assert(seq![s.last()].drop_last() =~= Seq::<char>::empty());
            assert(seq![s.last()].filter(f) =~= Seq::<char>::empty());
        } else {
            assert(tail.drop_last() =~= Seq::<char>::empty());
            assert(tail.filter(f) =~= tail);
        }
    }
}

/// A formatted string literal starts and ends with a quote, holds twice the
/// quotes of the text plus the two around it, and, quotes aside, holds the
/// text unchanged.
pub proof fn lemma_quoted_literal(s: Seq<char>)
    ensures
        quoted(s).len() >= 2,
        quoted(s)[0] == '\'',
        quoted(s).last() == '\'',
        count_char(quoted(s), '\'') == 2 * count_char(s, '\'') + 2,
        without_quotes(quoted(s)) == without_quotes(s),
{
    broadcast use vstd::seq_lib::group_filter_ensures;

    let e = escape_quotes(s);
    let q = seq!['\''];
    lemma_escape_quote_count(s);
    lemma_escape_keeps_other_chars(s);
    lemma_count_char_add(q + e, q, '\'');
    lemma_count_char_add(q, e, '\'');
    reveal_with_fuel(count_char, 2);
    assert(q.drop_last() =~= Seq::<char>::empty());
    let f = |c: char| c != '\'';
    Seq::filter_distributes_over_add(q + e, q, f);
    Seq::filter_distributes_over_add(q, e, f);
    reveal_with_fuel(Seq::filter, 2);
    assert(q.filter(f) =~= Seq::<char>::empty());
    assert(q.filter(f) + e.filter(f) =~= e.filter(f));
    assert(e.filter(f) + q.filter(f) =~= e.filter(f));
}

/// Whether `p` occurs in `t` ending just before position `end`.
pub open spec fn occurs_ending_at(t: Seq<char>, p: Seq<char>, end: int) -> bool {
    p.len() <= end <= t.len() && t.subrange(end - p.len(), end) == p
}

/// The number of places at which `p` occurs in `t`.
pub open spec fn occurrences(t: Seq<char>, p: Seq<char>) -> nat
    decreases t.len(),
{
    if t.len() == 0 {
        0
    } else {
        occurrences(t.drop_last(), p) + if occurs_ending_at(t, p, t.len() as int) {
            1nat
        } else {
            0nat
        }
    }
}

/// Whether `x` directly followed by `y` appears somewhere in `p`.
pub open spec fn has_pair(p: Seq<char>, x: char, y: char) -> bool {
    exists|k: int| 0 <= k < p.len() - 1 && #[trigger] p[k] == x && p[k + 1] == y
}

/// Whether `a` and `b` meet where no occurrence of `p` can span them: one of
/// them is empty, or the last character of `a` followed by the first of `b`
/// appears nowhere in `p`.
pub open spec fn clean_seam(a: Seq<char>, b: Seq<char>, p: Seq<char>) -> bool {
    a.len() == 0 || b.len() == 0 || !has_pair(p, a.last(), b[0])
}

/// Occurrences add up over a concatenation whose seam no occurrence spans.
pub proof fn lemma_occurrences_add(a: Seq<char>, b: Seq<char>, p: Seq<char>)
    requires
        p.len() >= 2,
        clean_seam(a, b, p),
    ensures
        occurrences(a + b, p) == occurrences(a, p) + occurrences(b, p),
    decreases b.len(),
{
    let ab = a + b;
    if b.len() == 0 {
        assert(ab =~= a);
    } else {
        assert(ab.drop_last() =~= a + b.drop_last());
        lemma_occurrences_add(a, b.drop_last(), p);
        let n = ab.len() as int;
        if b.len() >= p.len() {
            assert(ab.subrange(n - p.len(), n) =~= b.subrange(b.len() - p.len(), b.len() as int));
        } else if occurs_ending_at(ab, p, n) {
            let k = a.len() - 1 - (n - p.len());
            assert(0 <= k < p.len() - 1);
            assert(p[k] == ab.subrange(n - p.len(), n)[k]);
            assert(p[k + 1] == ab.subrange(n - p.len(), n)[k + 1]);
            assert(p[k] == a.last() && p[k + 1] == b[0]);
            assert(has_pair(p, a.last(), b[0]));
        }
    }
}

/// Where two neighbouring characters of `p` never stand side by side in `t`,
/// `p` does not occur in `t`.
pub proof fn lemma_occurrences_none(t: Seq<char>, p: Seq<char>, k: int)
    requires
        0 <= k < p.len() - 1,
        forall|j: int| 0 <= j < t.len() - 1 ==> !(#[trigger] t[j] == p[k] && t[j + 1] == p[k + 1]),
    ensures
        occurrences(t, p) == 0,
    decreases t.len(),
{
    if t.len() > 0 {
        lemma_occurrences_none(t.drop_last(), p, k);
        let n = t.len() as int;
        if occurs_ending_at(t, p, n) {
            let j = n - p.len() + k;
            assert(t[j] == t.subrange(n - p.len(), n)[k]);
            assert(t[j + 1] == t.subrange(n - p.len(), n)[k + 1]);
        }
    }
}

/// A text shorter than `p` holds no occurrence of it.
pub proof fn lemma_occurrences_short(t: Seq<char>, p: Seq<char>)
    requires
        t.len() < p.len(),
    ensures
        occurrences(t, p) == 0,
    decreases t.len(),
{
    if t.len() > 0 {
        lemma_occurrences_short(t.drop_last(), p);
    }
}

/// `p` occurs in itself once.
pub proof fn lemma_occurrences_self(p: Seq<char>)
    requires
        p.len() >= 1,
    ensures
        occurrences(p, p) == 1,
{
    lemma_occurrences_short(p.drop_last(), p);
    assert(p.subrange(0, p.len() as int) =~= p);
}

/// A joined list holds the occurrences of its separators alone, where the
/// parts hold none and no occurrence spans a seam.
pub proof fn lemma_occurrences_join(parts: Seq<Seq<char>>, sep: Seq<char>, p: Seq<char>)
    requires
        p.len() >= 2,
        sep.len() >= 1,
        forall|x: char| !has_pair(p, x, sep[0]),
        forall|y: char| !has_pair(p, sep.last(), y),
        forall|i: int| 0 <= i < parts.len() ==> occurrences(#[trigger] parts[i], p) == 0,
    ensures
        occurrences(join(parts, sep), p) == if parts.len() == 0 {
            0
        } else {
            (parts.len() - 1) * occurrences(sep, p)
        },
    decreases parts.len(),
{
    if parts.len() >= 2 {
        let init = parts.drop_last();
        lemma_occurrences_join(init, sep, p);
        let j = join(init, sep);
        if j.len() > 0 {
            assert(!has_pair(p, j.last(), sep[0]));
        }
        lemma_occurrences_add(j, sep, p);
        assert((j + sep).len() > 0 && (j + sep).last() == sep.last());
        if parts.last().len() > 0 {
            assert(!has_pair(p, sep.last(), parts.last()[0]));
        }
        lemma_occurrences_add(j + sep, parts.last(), p);
        assert(parts.last() == parts[parts.len() - 1]);
        assert((parts.len() - 1) * occurrences(sep, p) == (parts.len() - 2) * occurrences(sep, p)
            + occurrences(sep, p)) by (nonlinear_arith);
    } else if parts.len() == 1 {
        assert(parts[0] == parts[0]);
    }
}

/// Every character of a decimal numeral is a digit or a minus sign.
pub proof fn lemma_int_text_chars(i: int)
    ensures
        forall|j: int|
            0 <= j < int_text(i).len() ==> #[trigger] int_text(i)[j] == '-' || digits().contains(
                int_text(i)[j],
            ),
{
    if i < 0 {
        lemma_nat_text_chars((-i) as nat);
        assert forall|j: int| 1 <= j < int_text(i).len() implies #[trigger] int_text(i)[j]
            == nat_text((-i) as nat)[j - 1] by {}
    } else {
        lemma_nat_text_chars(i as nat);
    }
}

proof fn lemma_nat_text_chars(n: nat)
    ensures
        forall|j: int| 0 <= j < nat_text(n).len() ==> digits().contains(#[trigger] nat_text(n)[j]),
    decreases n,
{
    if n < 10 {
        assert(digits()[n as int] == nat_text(n)[0]);
    } else {
        lemma_nat_text_chars(n / 10);
        let d = (n % 10) as int;
        assert(digits()[d] == nat_text(n).last());
        assert forall|j: int| 0 <= j < nat_text(n).len() implies digits().contains(
            #[trigger] nat_text(n)[j],
        ) by {
            if j < nat_text(n).len() - 1 {
                assert(nat_text(n)[j] == nat_text(n / 10)[j]);
            } else {
                assert(digits()[d] == nat_text(n)[j]);
            }
        }
    }
}

/// Appends one decimal digit.
fn push_digit(out: &mut String, d: u64)
    requires
        d < 10,
    ensures
        final(out)@ == old(out)@ + seq![digits()[d as int]],
{
    let all = "0123456789";
    proof {
        reveal_strlit("0123456789");
    }
    let one = all.substring_char(d as usize, d as usize + 1);
    assert(one@ =~= seq![digits()[d as int]]);
    out.append(one);
}

/// Appends the decimal numeral of `n`.
fn push_nat(out: &mut String, n: u64)
    ensures
        final(out)@ == old(out)@ + nat_text(n as nat),
    decreases n,
{
    if n >= 10 {
        push_nat(out, n / 10);
    }
    push_digit(out, n % 10);
    assert(final(out)@ =~= old(out)@ + nat_text(n as nat));
}

/// The decimal numeral of `i`.
pub fn int_to_text(i: i64) -> (r: String)
    ensures
        r@ == int_text(i as int),
{
    let mut out = String::new();
    if i < 0 {
        out.append("-");
        proof {
            reveal_strlit("-");
        }
        let m: u64 = (0i128 - i as i128) as u64;
        push_nat(&mut out, m);
    } else {
        push_nat(&mut out, i as u64);
    }
    assert(out@ =~= int_text(i as int));
    out
}

/// With no quote in `s[a..b]`, escaping `s[..b]` is escaping `s[..a]` followed
/// by `s[a..b]` as it stands.
proof fn lemma_escape_plain_run(s: Seq<char>, a: int, b: int)
    requires
        0 <= a <= b <= s.len(),
        forall|k: int| a <= k < b ==> s[k] != '\'',
    ensures
        escape_quotes(s.subrange(0, b)) == escape_quotes(s.subrange(0, a)) + s.subrange(a, b),
    decreases b - a,
{
    if b == a {
        assert(escape_quotes(s.subrange(0, a)) + s.subrange(a, b) =~= escape_quotes(
            s.subrange(0, a),
        ));
    } else {
        lemma_escape_plain_run(s, a, b - 1);
        assert(s.subrange(0, b).drop_last() =~= s.subrange(0, b - 1));
        assert(s.subrange(a, b) =~= s.subrange(a, b - 1) + seq![s[b - 1]]);
    }
}

/// The text of `s` as a string literal, each quote in it doubled.
pub fn quote_text(s: &str) -> (r: String)
    ensures
        r@ == quoted(s@),
{
    let n = s.unicode_len();
    let mut out = String::new();
    out.append("'");
    proof {
        reveal_strlit("'");
    }
    let mut start: usize = 0;
    let mut i: usize = 0;
    while i < n
        invariant
            n == s@.len(),
            start <= i <= n,
            out@ == seq!['\''] + escape_quotes(s@.subrange(0, start as int)),
            forall|k: int| start <= k < i ==> s@[k] != '\'',
        decreases n - i,
    {
        let c = s.get_char(i);
        if c == '\'' {
            proof {
                lemma_escape_plain_run(s@, start as int, i as int);
                assert(s@.subrange(0, i + 1).drop_last() =~= s@.subrange(0, i as int));
            }
            let run = s.substring_char(start, i + 1);
            out.append(run);
            out.append("'");
            proof {
                reveal_strlit("'");
                assert(s@.subrange(0, i + 1).last() == '\'');
                assert(escape_quotes(s@.subrange(0, i + 1)) == escape_quotes(s@.subrange(0, i as int))
                    + seq!['\'', '\'']);
            }
            assert(run@ =~= s@.subrange(start as int, i as int) + seq!['\'']);
            assert(out@ =~= seq!['\''] + escape_quotes(s@.subrange(0, i + 1)));
            start = i + 1;
        }
        i = i + 1;
    }
    proof {
        lemma_escape_plain_run(s@, start as int, n as int);
        assert(s@.subrange(0, n as int) =~= s@);
    }
    let rest = s.substring_char(start, n);
    out.append(rest);
    out.append("'");
    assert(out@ =~= quoted(s@));
    out
}

} // verus!
