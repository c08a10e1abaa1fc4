use vstd::prelude::*;

verus! {

/// The characters of `s`, in order.
fn chars_of(s: &str) -> (r: Vec<char>)
    ensures
        r@ == s@,
{
    let n = s.unicode_len();
    let mut r: Vec<char> = Vec::new();
    let mut i: usize = 0;
    while i < n
        invariant
            n == s@.len(),
            i <= n,
            r@ == s@.subrange(0, i as int),
        decreases n - i,
    {
        r.push(s.get_char(i));
        i += 1;
        assert(r@ =~= s@.subrange(0, i as int));
    }
    assert(r@ =~= s@);
    r
}

pub open spec fn has_no_at_sign(t: Seq<char>) -> bool {
    forall|k: int| 0 <= k < t.len() ==> t[k] != '@'
}

/// The part of an address before its `@`: not empty, no `@`, not ending in a dot.
pub open spec fn is_email_local_part(t: Seq<char>) -> bool {
    &&& t.len() > 0
    &&& has_no_at_sign(t)
    &&& t.last() != '.'
}

/// The part of an address after its `@`: two or more non-empty labels joined by dots,
/// and no `@`.
pub open spec fn is_email_domain(t: Seq<char>) -> bool {
    &&& t.len() > 0
    &&& has_no_at_sign(t)
    &&& t[0] != '.'
    &&& t.last() != '.'
    &&& exists|k: int| 0 <= k < t.len() && t[k] == '.'
    &&& forall|k: int| 0 <= k < t.len() - 1 ==> !(#[trigger] t[k] == '.' && t[k + 1] == '.')
}

/// `s` is a local part, one `@`, and a domain.
pub open spec fn is_email(s: Seq<char>) -> bool {
    exists|i: int|
        0 <= i < s.len() && s[i] == '@' && is_email_local_part(#[trigger] s.subrange(0, i))
            && is_email_domain(s.subrange(i + 1, s.len() as int))
}

fn is_domain_from(cs: &Vec<char>, start: usize) -> (r: bool)
    requires
        start <= cs@.len(),
    ensures
        r == is_email_domain(cs@.subrange(start as int, cs@.len() as int)),
{
    let ghost t = cs@.subrange(start as int, cs@.len() as int);
    let n = cs.len();
    if start == n || cs[start] == '.' || cs[n - 1] == '.' {
        return false;
    }
    let mut saw_dot = false;
    let mut j: usize = start;
    while j < n
        invariant
            n == cs@.len(),
            start < n,
            t == cs@.subrange(start as int, n as int),
            start <= j <= n,
            forall|k: int| start <= k < j ==> cs@[k] != '@',
            forall|k: int| start <= k < j - 1 ==> !(#[trigger] cs@[k] == '.' && cs@[k + 1] == '.'),
            saw_dot <==> exists|k: int| start <= k < j && cs@[k] == '.',
        decreases n - j,
    {
        let c = cs[j];
        if c == '@' {
            assert(t[j - start] == '@');
            return false;
        }
        if c == '.' && j > start && cs[j - 1] == '.' {
            assert(t[j - 1 - start] == '.' && t[j - start] == '.');
            return false;
        }
        if c == '.' {
            saw_dot = true;
        }
        j += 1;
    }
    proof {
        if saw_dot {
            let k = choose|k: int| start <= k < n && cs@[k] == '.';
            assert(t[k - start] == '.');
        } else {
            assert forall|k: int| 0 <= k < t.len() implies t[k] != '.' by {
                assert(t[k] == cs@[start + k]);
            }
        }
        assert forall|k: int| 0 <= k < t.len() implies t[k] != '@' by {
            assert(t[k] == cs@[start + k]);
        }
        assert forall|k: int| 0 <= k < t.len() - 1 implies !(#[trigger] t[k] == '.' && t[k + 1] == '.') by {
            assert(t[k] == cs@[start + k]);
            assert(t[k + 1] == cs@[start + k + 1]);
        }
    }
    saw_dot
}

/// Whether `s` has the shape of an email address.
pub fn is_valid_email(s: &str) -> (r: bool)
    ensures
        r == is_email(s@),
{
    let cs = chars_of(s);
    let n = cs.len();
    let mut i: usize = 0;
    while i < n && cs[i] != '@'
        invariant
            n == cs@.len(),
            i <= n,
            forall|k: int| 0 <= k < i ==> cs@[k] != '@',
        decreases n - i,
    {
        i += 1;
    }
    let ghost s = cs@;
    if i == n {
        return false;
    }
    // Any split point of an address is the first `@`.
    assert forall|i2: int|
        0 <= i2 < s.len() && s[i2] == '@' && is_email_local_part(
            #[trigger] s.subrange(0, i2),
        ) implies i2 == i by {
        if i2 > i {
            assert(s.subrange(0, i2)[i as int] == '@');
        }
    }
    if i == 0 || cs[i - 1] == '.' {
        proof {
            if i > 0 {
                assert(s.subrange(0, i as int).last() == s[i - 1]);
            }
        }
        return false;
    }
    let d = is_domain_from(&cs, i + 1);
    proof {
        let local = s.subrange(0, i as int);
        assert(local.last() == s[i - 1]);
        assert forall|k: int| 0 <= k < local.len() implies local[k] != '@' by {}
        assert(is_email_local_part(local));
    }
    d
}

pub open spec fn is_digit(c: char) -> bool {
    '0' <= c && c <= '9'
}

/// Nine digits: written together when `sep` is `None`, else one digit followed by four
/// pairs, each pair preceded by the separator.
pub open spec fn is_grouped_number(t: Seq<char>, sep: Option<char>) -> bool {
    match sep {
        None => t.len() == 9 && forall|p: int| 0 <= p < 9 ==> is_digit(#[trigger] t[p]),
        Some(c) => t.len() == 13 && forall|p: int|
            0 <= p < 13 ==> if p % 3 == 1 {
                #[trigger] t[p] == c
            } else {
                is_digit(t[p])
            },
    }
}

/// The nine significant digits of a number, grouped by one kind of separator at most.
pub open spec fn is_subscriber_number(t: Seq<char>) -> bool {
    ||| is_grouped_number(t, None)
    ||| is_grouped_number(t, Some(' '))
    ||| is_grouped_number(t, Some('.'))
    ||| is_grouped_number(t, Some('-'))
}

pub open spec fn is_country_code(t: Seq<char>) -> bool {
    t == seq!['+', '3', '3'] || t == seq!['0', '0', '3', '3']
}

pub open spec fn is_optional_space(t: Seq<char>) -> bool {
    t.len() == 0 || t == seq![' ']
}

/// The trunk prefix `(0)` as written after a country code, with an optional space, or nothing.
pub open spec fn is_trunk_marker(t: Seq<char>) -> bool {
    t.len() == 0 || t == seq!['(', '0', ')'] || t == seq!['(', '0', ')', ' ']
}

/// A country code, an optional space, and an optional trunk marker.
pub open spec fn is_international_prefix(t: Seq<char>) -> bool {
    exists|a: int, b: int|
        0 <= a <= b <= t.len() && is_country_code(#[trigger] t.subrange(0, a))
            && is_optional_space(t.subrange(a, b)) && is_trunk_marker(
            #[trigger] t.subrange(b, t.len() as int),
        )
}

/// A national number (`0` and nine digits) or an international one.
pub open spec fn is_phone_number(s: Seq<char>) -> bool {
    ||| (s.len() > 0 && s[0] == '0' && is_subscriber_number(s.subrange(1, s.len() as int)))
    ||| exists|k: int|
        0 <= k <= s.len() && is_international_prefix(#[trigger] s.subrange(0, k))
            && is_subscriber_number(s.subrange(k, s.len() as int))
}

fn is_digit_char(c: char) -> (r: bool)
    ensures
        r == is_digit(c),
{
    '0' <= c && c <= '9'
}

fn is_subscriber_from(cs: &Vec<char>, start: usize) -> (r: bool)
    requires
        start <= cs@.len(),
    ensures
        r == is_subscriber_number(cs@.subrange(start as int, cs@.len() as int)),
{
    let ghost t = cs@.subrange(start as int, cs@.len() as int);
    let n = cs.len();
    let m = n - start;
    if m == 9 {
        let mut i: usize = 0;
        while i < 9
            invariant
                n == cs@.len(),
                m == 9,
                start + 9 == n,
                t == cs@.subrange(start as int, n as int),
                i <= 9,
                forall|p: int| 0 <= p < i ==> is_digit(#[trigger] t[p]),
            decreases 9 - i,
        {
            if !is_digit_char(cs[start + i]) {
                assert(t[i as int] == cs@[start + i]);
                return false;
            }
            assert(t[i as int] == cs@[start + i]);
            i += 1;
        }
        return true;
    }
    if m != 13 {
        return false;
    }
    let c = cs[start + 1];
    assert(t[1] == c);
    if !(c == ' ' || c == '.' || c == '-') {
        return false;
    }
    let mut i: usize = 0;
    while i < 13
        invariant
            n == cs@.len(),
            start + 13 == n,
            t == cs@.subrange(start as int, n as int),
            t[1] == c,
            c == ' ' || c == '.' || c == '-',
            i <= 13,
            forall|p: int|
                0 <= p < i ==> if p % 3 == 1 {
                    #[trigger] t[p] == c
                } else {
                    is_digit(t[p])
                },
        decreases 13 - i,
    {
        let d = cs[start + i];
        assert(t[i as int] == d);
        if i % 3 == 1 {
            if d != c {
                return false;
            }
        } else if !is_digit_char(d) {
            assert(!is_grouped_number(t, Some(c)));
            assert(is_digit(c) == false);
            assert(t[1] == c);
            return false;
        }
        i += 1;
    }
    assert(is_grouped_number(t, Some(c)));
    true
}

fn is_international_prefix_upto(cs: &Vec<char>, k: usize) -> (r: bool)
    requires
        k <= cs@.len(),
    ensures
        r == is_international_prefix(cs@.subrange(0, k as int)),
{
    let ghost t = cs@.subrange(0, k as int);
    let plus = k >= 3 && cs[0] == '+' && cs[1] == '3' && cs[2] == '3';
    let zeros = k >= 4 && cs[0] == '0' && cs[1] == '0' && cs[2] == '3' && cs[3] == '3';
    if !plus && !zeros {
        proof {
            assert forall|a: int, b: int|
                0 <= a <= b <= t.len() && is_country_code(#[trigger] t.subrange(0, a))
                    && is_optional_space(t.subrange(a, b)) implies !is_trunk_marker(
                #[trigger] t.subrange(b, t.len() as int),
            ) by {
                let cc = t.subrange(0, a);
                assert(cc.len() == 3 || cc.len() == 4);
                assert(cc[0] == t[0] && cc[1] == t[1] && cc[2] == t[2]);
                if cc.len() == 4 {
                    assert(cc[3] == t[3]);
                }
            }
        }
        return false;
    }
    let a: usize = if plus {
        3
    } else {
        4
    };
    assert(t.subrange(0, a as int) =~= if plus {
        seq!['+', '3', '3']
    } else {
        seq!['0', '0', '3', '3']
    });
    let b: usize = if a < k && cs[a] == ' ' {
        a + 1
    } else {
        a
    };
    assert(is_optional_space(t.subrange(a as int, b as int))) by {
        if b > a {
            assert(t.subrange(a as int, b as int) =~= seq![' ']);
        }
    }
    let rest = k - b;
    let three = rest >= 3 && cs[b] == '(' && cs[b + 1] == '0' && cs[b + 2] == ')';
    let r = rest == 0 || (three && (rest == 3 || (rest == 4 && cs[b + 3] == ' ')));
    proof {
        let tr = t.subrange(b as int, k as int);
        if r {
            if rest == 3 {
                assert(tr =~= seq!['(', '0', ')']);
            } else if rest == 4 {
                assert(tr =~= seq!['(', '0', ')', ' ']);
            }
            assert(tr == t.subrange(b as int, t.len() as int));
            assert(is_trunk_marker(tr));
            assert(is_country_code(t.subrange(0, a as int)));
            assert(is_international_prefix(t));
        } else {
            assert forall|a2: int, b2: int|
                0 <= a2 <= b2 <= t.len() && is_country_code(#[trigger] t.subrange(0, a2))
                    && is_optional_space(t.subrange(a2, b2)) implies !is_trunk_marker(
                #[trigger] t.subrange(b2, t.len() as int),
            ) by {
                let cc = t.subrange(0, a2);
                assert(cc[0] == t[0]);
                assert(a2 == a);
                let sp = t.subrange(a2, b2);
                if b2 > a2 {
                    assert(sp[0] == t[a2]);
                }
                let tr2 = t.subrange(b2, t.len() as int);
                if is_trunk_marker(tr2) {
                    if b2 < t.len() {
                        assert(tr2[0] == t[b2]);
                    }
                    if b2 > a2 {
                        assert(sp =~= seq![' ']);
                    }
                    assert(b2 == b);
                }
                if is_trunk_marker(tr2) && tr2.len() > 0 {
                    assert(tr2[0] == t[b2]);
                    assert(tr2[1] == t[b2 + 1]);
                    assert(tr2[2] == t[b2 + 2]);
                    if tr2.len() == 4 {
                        assert(tr2[3] == t[b2 + 3]);
                    }
                }
            }
        }
    }
    r
}

/// Whether `s` is a phone number in one of the accepted national or international forms.
pub fn is_valid_phone_number(s: &str) -> (r: bool)
    ensures
        r == is_phone_number(s@),
{
    let cs = chars_of(s);
    let n = cs.len();
    let ghost sq = cs@;
    if n >= 1 && cs[0] == '0' && is_subscriber_from(&cs, 1) {
        return true;
    }
    if n >= 9 && is_international_prefix_upto(&cs, n - 9) && is_subscriber_from(&cs, n - 9) {
        return true;
    }
    if n >= 13 && is_international_prefix_upto(&cs, n - 13) && is_subscriber_from(&cs, n - 13) {
        return true;
    }
    assert forall|k: int|
        0 <= k <= sq.len() && is_international_prefix(
            #[trigger] sq.subrange(0, k),
        ) implies !is_subscriber_number(sq.subrange(k, sq.len() as int)) by {
        if is_subscriber_number(sq.subrange(k, sq.len() as int)) {
            assert(k == n - 9 || k == n - 13);
        }
    }
    false
}

/// A character with Unicode's White_Space property, the set that `str::trim` removes.
pub open spec fn is_white_space(c: char) -> bool {
    ||| ('\u{9}' <= c && c <= '\u{d}')
    ||| c == ' '
    ||| c == '\u{85}'
    ||| c == '\u{a0}'
    ||| c == '\u{1680}'
    ||| ('\u{2000}' <= c && c <= '\u{200a}')
    ||| c == '\u{2028}'
    ||| c == '\u{2029}'
    ||| c == '\u{202f}'
    ||| c == '\u{205f}'
    ||| c == '\u{3000}'
}

/// Nothing is left of `t` once white space is trimmed from both ends.
pub open spec fn is_blank(t: Seq<char>) -> bool {
    forall|k: int| 0 <= k < t.len() ==> is_white_space(#[trigger] t[k])
}

fn is_white_space_char(c: char) -> (r: bool)
    ensures
        r == is_white_space(c),
{
    ('\u{9}' <= c && c <= '\u{d}') || c == ' ' || c == '\u{85}' || c == '\u{a0}' || c
        == '\u{1680}' || ('\u{2000}' <= c && c <= '\u{200a}') || c == '\u{2028}' || c
        == '\u{2029}' || c == '\u{202f}' || c == '\u{205f}' || c == '\u{3000}'
}

/// Whether `s` is empty once trimmed.
pub fn is_blank_text(s: &str) -> (r: bool)
    ensures
        r == is_blank(s@),
{
    let n = s.unicode_len();
    let mut i: usize = 0;
    while i < n
        invariant
            n == s@.len(),
            i <= n,
            forall|k: int| 0 <= k < i ==> is_white_space(#[trigger] s@[k]),
        decreases n - i,
    {
        if !is_white_space_char(s.get_char(i)) {
            return false;
        }
        i += 1;
    }
    true
}

} // verus!
