//! Small text operations on commit data: the opt-out marker, title templates,
//! decimal numbers and the author string.
use vstd::prelude::*;

verus! {

/// The opt-out marker that a commit message may hold on a line of its own.
pub open spec fn marker() -> Seq<char> {
    seq!['n', 'o', '-', 'r', 's', 's']
}

/// Whether the marker stands at position `i` of `m` and fills a whole line.
pub open spec fn marker_line_at(m: Seq<char>, i: int) -> bool {
    0 <= i && i + 6 <= m.len() && m.subrange(i, i + 6) == marker() && (i == 0 || m[i - 1]
        == '\n') && (i + 6 == m.len() || m[i + 6] == '\n')
}

/// Whether some line of `m` consists of the marker and nothing else.
pub open spec fn has_marker_line(m: Seq<char>) -> bool {
    exists|i: int| marker_line_at(m, i)
}

/// Whether the commit message `msg` opts its commit out of the feed: true
/// exactly when one of its lines is `no-rss`.
pub fn opts_out(msg: &str) -> (r: bool)
    ensures
        r == has_marker_line(msg@),
{
    let n = msg.unicode_len();
    if n < 6 {
        return false;
    }
    proof {
        reveal_strlit("no-rss");
        assert("no-rss"@ =~= marker());
    }
    let mut i: usize = 0;
    while i <= n - 6
        invariant
            n == msg@.len(),
            n >= 6,
            i <= n - 5,
            "no-rss"@ == marker(),
            forall|j: int| 0 <= j < i ==> !marker_line_at(msg@, j),
        decreases n - i,
    {
        let starts_line = i == 0 || msg.get_char(i - 1) == '\n';
        let ends_line = i + 6 == n || msg.get_char(i + 6) == '\n';
        let word = msg.substring_char(i, i + 6);
        let is_marker = crate::paths::starts_with(word, "no-rss");
        assert(word@.subrange(0, 6) =~= word@);
        if starts_line && ends_line && is_marker {
            assert(marker_line_at(msg@, i as int));
            return true;
        }
        i = i + 1;
    }
    assert forall|j: int| !marker_line_at(msg@, j) by {
        if 0 <= j && j >= i {
            assert(j + 6 > n);
        }
    }
    false
}

/// `t` with each `%p`, read from the left, replaced by `p`.
pub open spec fn fill_template(t: Seq<char>, p: Seq<char>) -> Seq<char>
    decreases t.len(),
{
    if t.len() < 2 {
        t
    } else if t[0] == '%' && t[1] == 'p' {
        p + fill_template(t.subrange(2, t.len() as int), p)
    } else {
        seq![t[0]] + fill_template(t.subrange(1, t.len() as int), p)
    }
}

/// The title made from `template`: each `%p` in it becomes `path`.
pub fn fill_title(template: &str, path: &str) -> (r: String)
    ensures
        r@ == fill_template(template@, path@),
{
    let n = template.unicode_len();
    let mut out = String::new();
    let mut i: usize = 0;
    assert(template@.subrange(0, n as int) =~= template@);
    assert(out@ + template@ =~= template@);
    while i < n
        invariant
            n == template@.len(),
            i <= n,
            out@ + fill_template(template@.subrange(i as int, n as int), path@) == fill_template(
                template@,
                path@,
            ),
        decreases n - i,
    {
        let rest = Ghost(template@.subrange(i as int, n as int));
        if i + 1 < n && template.get_char(i) == '%' && template.get_char(i + 1) == 'p' {
            assert(rest@.subrange(2, rest@.len() as int) =~= template@.subrange(
                i + 2,
                n as int,
            ));
            assert(out@ + path@ + fill_template(template@.subrange(i + 2, n as int), path@)
                =~= out@ + fill_template(rest@, path@));
            out.append(path);
            i = i + 2;
        } else {
            if i + 1 == n {
                assert(template@.subrange(i + 1, n as int) =~= Seq::<char>::empty());
                assert(template@.subrange(i as int, i + 1) =~= rest@);
            } else {
                assert(rest@.subrange(1, rest@.len() as int) =~= template@.subrange(
                    i + 1,
                    n as int,
                ));
            }
            assert(out@ + template@.subrange(i as int, i + 1) + fill_template(
                template@.subrange(i + 1, n as int),
                path@,
            ) =~= out@ + fill_template(rest@, path@));
            out.append(template.substring_char(i, i + 1));
            i = i + 1;
        }
    }
    assert(template@.subrange(n as int, n as int) =~= Seq::<char>::empty());
    assert(out@ + Seq::<char>::empty() =~= out@);
    out
}

/// The decimal digit for `d`.
pub open spec fn digit(d: nat) -> char {
    seq!['0', '1', '2', '3', '4', '5', '6', '7', '8', '9'][d as int]
}

/// The decimal notation of `n`, without leading zeros.
pub open spec fn decimal(n: nat) -> Seq<char>
    decreases n,
{
    if n < 10 {
        seq![digit(n)]
    } else {
        decimal(n / 10).push(digit(n % 10))
    }
}

/// The decimal notation of `x`, with a leading `-` when it is negative.
pub open spec fn signed_decimal(x: int) -> Seq<char> {
    if x < 0 {
        seq!['-'] + decimal((-x) as nat)
    } else {
        decimal(x as nat)
    }
}

/// The decimal notation of `n`.
pub fn decimal_text(n: u64) -> (r: String)
    ensures
        r@ == decimal(n as nat),
    decreases n,
{
    let digits = "0123456789";
    proof {
        reveal_strlit("0123456789");
        assert(digits@ =~= seq!['0', '1', '2', '3', '4', '5', '6', '7', '8', '9']);
    }
    let d = (n % 10) as usize;
    let last = digits.substring_char(d, d + 1);
    assert(last@ =~= seq![digit(n as nat % 10)]);
    if n < 10 {
        String::from_str(last)
    } else {
        let mut head = decimal_text(n / 10);
        head.append(last);
        assert(head@ =~= decimal((n / 10) as nat).push(digit(n as nat % 10)));
        head
    }
}

/// The decimal notation of `x`, signed.
pub fn int_text(x: i64) -> (r: String)
    ensures
        r@ == signed_decimal(x as int),
{
    if x < 0 {
        let magnitude: u64 = ((-(x + 1)) as u64) + 1;
        let digits = decimal_text(magnitude);
        proof {
            reveal_strlit("-");
        }
        String::from_str("-").concat(digits.as_str())
    } else {
        decimal_text(x as u64)
    }
}

/// The author line of an item: `<email> (<name>)`.
pub open spec fn author_line(email: Seq<char>, name: Seq<char>) -> Seq<char> {
    email + seq![' ', '('] + name + seq![')']
}

/// The author line for an identity, or `None` where the email or the name is
/// missing.
pub fn author_text(email: Option<&str>, name: Option<&str>) -> (r: Option<String>)
    ensures
        r is Some <==> (email is Some && name is Some),
        r is Some ==> r->Some_0@ == author_line(email->Some_0@, name->Some_0@),
{
    match (email, name) {
        (Some(e), Some(n)) => {
            proof {
                reveal_strlit(" (");
                reveal_strlit(")");
                assert(" ("@ =~= seq![' ', '(']);
                assert(")"@ =~= seq![')']);
            }
            Some(String::from_str(e).concat(" (").concat(n).concat(")"))
        },
        _ => None,
    }
}

} // verus!
