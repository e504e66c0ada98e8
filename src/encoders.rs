//! The order in which encoder implementations are tried for a codec.

use vstd::prelude::*;

use crate::master::VideoCodec;

verus! {

/// Factory names of the NETINT Quadra hardware encoders start with this.
pub open spec fn hardware_prefix() -> Seq<char> {
    seq!['n', 'i', 'q', 'u', 'a', 'd', 'r', 'a']
}

pub open spec fn has_prefix(s: Seq<char>, prefix: Seq<char>) -> bool {
    prefix.len() <= s.len() && s.subrange(0, prefix.len() as int) == prefix
}

/// The positions `i < n` of `names` whose hardware-ness is `hardware`, in order.
pub open spec fn positions_where(names: Seq<Seq<char>>, hardware: bool, n: nat) -> Seq<usize>
    decreases n,
{
    if n == 0 {
        seq![]
    } else {
        let prev = positions_where(names, hardware, (n - 1) as nat);
        if has_prefix(names[n - 1], hardware_prefix()) == hardware {
            prev.push((n - 1) as usize)
        } else {
            prev
        }
    }
}

/// For AV1 the factories in the order given; for the other codecs the hardware
/// encoders first, then the rest, each group in the order given.
pub open spec fn search_order(names: Seq<Seq<char>>, codec: VideoCodec) -> Seq<usize> {
    if codec == VideoCodec::AV1 {
        Seq::new(names.len(), |i: int| i as usize)
    } else {
        positions_where(names, true, names.len()) + positions_where(names, false, names.len())
    }
}

/// Whether `s` starts with `prefix`.
pub fn starts_with(s: &str, prefix: &str) -> (r: bool)
    ensures
        r == has_prefix(s@, prefix@),
{
    let n = prefix.unicode_len();
    if n > s.unicode_len() {
        return false;
    }
    let mut i: usize = 0;
    while i < n
        invariant
            n == prefix@.len(),
            n <= s@.len(),
            i <= n,
            s@.subrange(0, i as int) == prefix@.subrange(0, i as int),
        decreases n - i,
    {
        if s.get_char(i) != prefix.get_char(i) {
            assert(s@.subrange(0, n as int)[i as int] != prefix@[i as int]);
            return false;
        }
        assert(s@.subrange(0, i + 1) =~= s@.subrange(0, i as int).push(s@[i as int]));
        assert(prefix@.subrange(0, i + 1) =~= prefix@.subrange(0, i as int).push(prefix@[i as int]));
        i = i + 1;
    }
    assert(prefix@.subrange(0, n as int) =~= prefix@);
    true
}

fn hardware_prefix_str() -> (r: &'static str)
    ensures
        r@ == hardware_prefix(),
{
    proof {
        reveal_strlit("niquadra");
    }
    let r = "niquadra";
    assert(r@ =~= hardware_prefix());
    r
}

fn push_positions(names: &Vec<String>, hardware: bool, out: &mut Vec<usize>)
    ensures
        final(out)@ == old(out)@ + positions_where(
            names@.map_values(|n: String| n@),
            hardware,
            names@.len(),
        ),
{
    let ghost views = names@.map_values(|n: String| n@);
    let ghost start = out@;
    let prefix = hardware_prefix_str();
    let mut i: usize = 0;
    while i < names.len()
        invariant
            i <= names@.len(),
            views == names@.map_values(|n: String| n@),
            prefix@ == hardware_prefix(),
            out@ == start + positions_where(views, hardware, i as nat),
        decreases names@.len() - i,
    {
        assert(views[i as int] == names@[i as int]@);
        if starts_with(names[i].as_str(), prefix) == hardware {
            out.push(i);
            assert(out@ =~= start + positions_where(views, hardware, (i + 1) as nat));
        }
        i = i + 1;
    }
}

/// The positions of `names` (encoder factory names) in the order in which the
/// factories are tried for `codec`.
pub fn encoder_search_order(names: &Vec<String>, codec: VideoCodec) -> (r: Vec<usize>)
    ensures
        r@ == search_order(names@.map_values(|n: String| n@), codec),
{
    let mut order: Vec<usize> = Vec::new();
    if codec == VideoCodec::AV1 {
        let mut i: usize = 0;
        while i < names.len()
            invariant
                i <= names@.len(),
                order@ =~= Seq::new(i as nat, |j: int| j as usize),
            decreases names@.len() - i,
        {
            order.push(i);
            i = i + 1;
        }
    } else {
        push_positions(names, true, &mut order);
        push_positions(names, false, &mut order);
        assert(order@ =~= search_order(names@.map_values(|n: String| n@), codec));
    }
    order
}

} // verus!
