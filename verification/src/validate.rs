//! Domain validators for network workloads: IP-literal syntax, port and
//! port-range bounds. Validation is fail-fast: the first violation in
//! traversal order is the one reported.

use vstd::prelude::*;
use vstd::string::StrSliceExecFns;
use crate::strings::{all_digits, digits_val, split_on, split_str, token_digits};
use crate::model::{entries_view, entry_view, CustomError, CustomErrorV, IpAdress, IpAdressV};

verus! {

/// The largest netmask, used as the default when a rule names none.
pub fn max_mask() -> (r: u32)
    ensures
        r == 32,
{
    32
}

/// IP-literal syntax: four groups of one to three decimal digits separated
/// by dots. Octet ranges are deliberately not checked (`999.999.999.999`
/// passes), preserving the engine's documented behaviour.
pub open spec fn is_ip_literal(s: Seq<char>) -> bool {
    let gs = split_on(s, '.');
    &&& gs.len() == 4
    &&& forall|g: int| 0 <= g < 4 ==> 1 <= (#[trigger] gs[g]).len() <= 3 && all_digits(gs[g])
}

/// Whether every character of `s` is a decimal digit.
fn check_all_digits(s: &str) -> (r: bool)
    ensures
        r == all_digits(s@),
{
    let n = s.unicode_len();
    let mut k: usize = 0;
    while k < n
        invariant
            n == s@.len(),
            k <= n,
            forall|m: int| 0 <= m < k ==> crate::strings::is_digit(#[trigger] s@[m]),
        decreases n - k,
    {
        let c = s.get_char(k);
        if (c as u32) < 48 || (c as u32) > 57 {
            return false;
        }
        k = k + 1;
    }
    true
}

/// Decides `is_ip_literal`.
pub fn check_ip_literal(s: &str) -> (r: bool)
    ensures
        r == is_ip_literal(s@),
{
    let parts = split_str(s, '.');
    if parts.len() != 4 {
        return false;
    }
    let mut g: usize = 0;
    while g < 4
        invariant
            parts.len() == 4,
            parts.deep_view() == split_on(s@, '.'),
            g <= 4,
            forall|m: int|
                0 <= m < g ==> 1 <= (#[trigger] split_on(s@, '.')[m]).len() <= 3 && all_digits(
                    split_on(s@, '.')[m],
                ),
        decreases 4 - g,
    {
        let n = parts[g].unicode_len();
        proof {
            assert(parts[g as int]@ == split_on(s@, '.')[g as int]);
        }
        if n < 1 || n > 3 {
            return false;
        }
        if !check_all_digits(parts[g].as_str()) {
            return false;
        }
        g = g + 1;
    }
    true
}

/// A port token is well formed when its digits — after any single leading
/// `+` sign, as unsigned decimal integers are read — are nonempty, all
/// decimal, and denote a value that fits an unsigned 32-bit integer.
pub open spec fn is_port_token(t: Seq<char>) -> bool {
    let d = token_digits(t);
    &&& d.len() >= 1
    &&& all_digits(d)
    &&& digits_val(d) <= u32::MAX
}

/// A sequence of decimal digits denotes a nonnegative value.
proof fn lemma_digits_val_nonneg(d: Seq<char>)
    requires
        all_digits(d),
    ensures
        digits_val(d) >= 0,
    decreases d.len(),
{
    if d.len() > 0 {
        assert(all_digits(d.drop_last())) by {
            assert(forall|m: int|
                0 <= m < d.len() - 1 ==> #[trigger] d.drop_last()[m] == d[m]);
        }
        lemma_digits_val_nonneg(d.drop_last());
    }
}

/// Extending a digit sequence cannot shrink its value.
proof fn lemma_digits_val_grow(d: Seq<char>, m: int)
    requires
        all_digits(d),
        0 <= m <= d.len(),
    ensures
        digits_val(d) >= digits_val(d.take(m)),
    decreases d.len() - m,
{
    if m < d.len() {
        assert(all_digits(d.take(m))) by {
            assert(forall|k: int| 0 <= k < m ==> #[trigger] d.take(m)[k] == d[k]);
        }
        lemma_digits_val_nonneg(d.take(m));
        assert(d.take(m + 1).drop_last() =~= d.take(m));
        assert(d.take(m + 1).last() == d[m]);
        assert(digits_val(d.take(m + 1)) == digits_val(d.take(m)) * 10 + crate::strings::digit_val(
            d[m],
        ));
        lemma_digits_val_grow(d, m + 1);
    } else {
        assert(d.take(m) =~= d);
    }
}

/// Reads a port token; `None` exactly when the token is malformed.
#[verifier::loop_isolation(false)]
pub fn parse_port_token(t: &str) -> (r: Option<u32>)
    ensures
        (r is Some) == is_port_token(t@),
        r matches Some(v) ==> v == digits_val(token_digits(t@)),
{
    let n = t.unicode_len();
    let start: usize = if n > 0 && t.get_char(0) == '+' {
        1
    } else {
        0
    };
    let ghost d = token_digits(t@);
    proof {
        assert(d =~= t@.skip(start as int));
    }
    if start >= n {
        return None;
    }
    let mut acc: u32 = 0;
    let mut k: usize = start;
    while k < n
        invariant
            start <= k <= n,
            acc == digits_val(d.take(k - start)),
            forall|m: int| 0 <= m < k - start ==> crate::strings::is_digit(#[trigger] d[m]),
        decreases n - k,
    {
        let c = t.get_char(k);
        proof {
            assert(d[k - start] == t@[k as int]);
        }
        if (c as u32) < 48 || (c as u32) > 57 {
            return None;
        }
        let dval: u32 = (c as u32) - 48;
        proof {
            assert(d.take(k - start + 1).drop_last() =~= d.take(k - start));
            assert(d.take(k - start + 1).last() == d[k - start]);
            assert(all_digits(d.take(k - start + 1)));
            lemma_digits_val_nonneg(d.take(k - start + 1));
        }
        if acc > (u32::MAX - dval) / 10 {
            proof {
                vstd::arithmetic::div_mod::lemma_fundamental_div_mod(
                    (u32::MAX - dval) as int,
                    10,
                );
                assert(acc * 10 + dval > u32::MAX);
                if all_digits(d) {
                    lemma_digits_val_grow(d, k - start + 1);
                }
            }
            return None;
        }
        acc = acc * 10 + dval;
        k = k + 1;
    }
    proof {
        assert(d.take(n - start) =~= d);
    }
    Some(acc)
}

/// The first problem among one port specification's tokens, in order: a
/// token that is not a well-formed number, or a value above 65535.
pub open spec fn first_token_error(ts: Seq<Seq<char>>) -> Option<CustomErrorV>
    decreases ts.len(),
{
    if ts.len() == 0 {
        None
    } else if !is_port_token(ts[0]) {
        Some(CustomErrorV::InvalidPortFormat(ts[0]))
    } else if digits_val(token_digits(ts[0])) > 65535 {
        Some(CustomErrorV::OutsidePortRange(digits_val(token_digits(ts[0])) as u32))
    } else {
        first_token_error(ts.drop_first())
    }
}

/// The first problem among a rule's port specifications, each split on the
/// range separator `-`.
pub open spec fn first_port_error(ports: Seq<Seq<char>>) -> Option<CustomErrorV>
    decreases ports.len(),
{
    if ports.len() == 0 {
        None
    } else if first_token_error(split_on(ports[0], '-')) is Some {
        first_token_error(split_on(ports[0], '-'))
    } else {
        first_port_error(ports.drop_first())
    }
}

/// The first problem among one entry's key/rule pairs: an invalid IP-literal
/// key is reported before that rule's ports are examined.
pub open spec fn first_pair_error(pairs: Seq<(Seq<char>, IpAdressV)>) -> Option<CustomErrorV>
    decreases pairs.len(),
{
    if pairs.len() == 0 {
        None
    } else if !is_ip_literal(pairs[0].0) {
        Some(CustomErrorV::InvalidIpAddress(pairs[0].0))
    } else if first_port_error(pairs[0].1.ports) is Some {
        first_port_error(pairs[0].1.ports)
    } else {
        first_pair_error(pairs.drop_first())
    }
}

/// The first problem across a direction's entries, in stored order.
pub open spec fn first_entry_error(entries: Seq<Seq<(Seq<char>, IpAdressV)>>) -> Option<
    CustomErrorV,
>
    decreases entries.len(),
{
    if entries.len() == 0 {
        None
    } else if first_pair_error(entries[0]) is Some {
        first_pair_error(entries[0])
    } else {
        first_entry_error(entries.drop_first())
    }
}

/// Checks one port specification's tokens in order.
#[verifier::loop_isolation(false)]
fn check_tokens(tokens: &Vec<String>) -> (r: Option<CustomError>)
    ensures
        (r is None) == (first_token_error(tokens.deep_view()) is None),
        r matches Some(e) ==> Some(e@) == first_token_error(tokens.deep_view()),
{
    let ghost ts = tokens.deep_view();
    let mut i: usize = 0;
    proof {
        assert(ts.skip(0) =~= ts);
    }
    while i < tokens.len()
        invariant
            i <= tokens.len(),
            first_token_error(ts) == first_token_error(ts.skip(i as int)),
        decreases tokens.len() - i,
    {
        proof {
            assert(ts.skip(i as int)[0] == ts[i as int]);
            assert(ts[i as int] == tokens[i as int]@);
            assert(ts.skip(i as int).drop_first() =~= ts.skip(i as int + 1));
        }
        match parse_port_token(tokens[i].as_str()) {
            None => {
                return Some(CustomError::InvalidPortFormat(tokens[i].clone()));
            },
            Some(v) => {
                if v > 65535 {
                    return Some(CustomError::OutsidePortRange(v));
                }
            },
        }
        i = i + 1;
    }
    proof {
        assert(ts.skip(tokens.len() as int) =~= Seq::<Seq<char>>::empty());
    }
    None
}

/// Checks a rule's port specifications in order.
#[verifier::loop_isolation(false)]
fn check_ports(ports: &Vec<String>) -> (r: Option<CustomError>)
    ensures
        (r is None) == (first_port_error(ports.deep_view()) is None),
        r matches Some(e) ==> Some(e@) == first_port_error(ports.deep_view()),
{
    let ghost ps = ports.deep_view();
    let mut i: usize = 0;
    proof {
        assert(ps.skip(0) =~= ps);
    }
    while i < ports.len()
        invariant
            i <= ports.len(),
            first_port_error(ps) == first_port_error(ps.skip(i as int)),
        decreases ports.len() - i,
    {
        proof {
            assert(ps.skip(i as int)[0] == ps[i as int]);
            assert(ps[i as int] == ports[i as int]@);
            assert(ps.skip(i as int).drop_first() =~= ps.skip(i as int + 1));
        }
        let tokens = split_str(ports[i].as_str(), '-');
        let checked = check_tokens(&tokens);
        if let Some(e) = checked {
            return Some(e);
        }
        i = i + 1;
    }
    proof {
        assert(ps.skip(ports.len() as int) =~= Seq::<Seq<char>>::empty());
    }
    None
}

/// Checks one entry's key/rule pairs in order.
#[verifier::loop_isolation(false)]
fn check_pairs(pairs: &Vec<(String, IpAdress)>) -> (r: Option<CustomError>)
    ensures
        (r is None) == (first_pair_error(entry_view(pairs@)) is None),
        r matches Some(e) ==> Some(e@) == first_pair_error(entry_view(pairs@)),
{
    let ghost pv = entry_view(pairs@);
    let mut i: usize = 0;
    proof {
        assert(pv.skip(0) =~= pv);
    }
    while i < pairs.len()
        invariant
            i <= pairs.len(),
            first_pair_error(pv) == first_pair_error(pv.skip(i as int)),
        decreases pairs.len() - i,
    {
        proof {
            assert(pv.skip(i as int)[0] == pv[i as int]);
            assert(pv[i as int] == (pairs[i as int].0@, pairs[i as int].1@));
            assert(pv.skip(i as int).drop_first() =~= pv.skip(i as int + 1));
        }
        if !check_ip_literal(pairs[i].0.as_str()) {
            return Some(CustomError::InvalidIpAddress(pairs[i].0.clone()));
        }
        let checked = check_ports(&pairs[i].1.ports);
        if let Some(e) = checked {
            return Some(e);
        }
        i = i + 1;
    }
    proof {
        assert(pv.skip(pairs.len() as int) =~= Seq::<(Seq<char>, IpAdressV)>::empty());
    }
    None
}

/// Walks one direction's entries in stored order and reports the first
/// violation found: an IP-literal key that fails the syntax check, a port
/// token that is not a number, or a port value above 65535. Returns `None`
/// when every entry passes.
#[verifier::loop_isolation(false)]
pub fn verify_network(networks: &Vec<Vec<(String, IpAdress)>>) -> (r: Option<CustomError>)
    ensures
        (r is None) == (first_entry_error(entries_view(networks@)) is None),
        r matches Some(e) ==> Some(e@) == first_entry_error(entries_view(networks@)),
{
    let ghost ev = entries_view(networks@);
    let mut i: usize = 0;
    proof {
        assert(ev.skip(0) =~= ev);
    }
    while i < networks.len()
        invariant
            i <= networks.len(),
            first_entry_error(ev) == first_entry_error(ev.skip(i as int)),
        decreases networks.len() - i,
    {
        proof {
            assert(ev.skip(i as int)[0] == ev[i as int]);
            assert(ev[i as int] == entry_view(networks[i as int]@));
            assert(ev.skip(i as int).drop_first() =~= ev.skip(i as int + 1));
        }
        let checked = check_pairs(&networks[i]);
        if let Some(e) = checked {
            return Some(e);
        }
        i = i + 1;
    }
    proof {
        assert(ev.skip(networks.len() as int) =~= Seq::<Seq<(Seq<char>, IpAdressV)>>::empty());
    }
    None
}

} // verus!
