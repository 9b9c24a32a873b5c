//! What holds of the search for free subnets and of the subnets that are allocated.
use vstd::arithmetic::div_mod::*;
use vstd::arithmetic::power2::*;
use vstd::prelude::*;

use crate::allocate::{
    allocatable, allocation_error, available_v4, available_v6, free_from, pick_subnets,
    v4_free, v4_leased, v4_taken, v6_free, v6_leased, v6_taken,
};
use crate::config::Config;
use crate::error::ManagerError;
use crate::ip::{next_ipv4_network, next_ipv6_network, Ipv4Network, Ipv6Network, NetworkError};
use crate::laws::{law_search_is_complete, law_search_is_sound, law_search_succeeds};
use crate::lease::Lease;
use crate::manager::LocalManager;

verus! {

/// Two different positions that lie a whole number of steps from the same point are at
/// least a step apart.
proof fn lemma_positions_apart(from: int, step: int, a: int, b: int)
    requires
        step > 0,
        (a - from) % step == 0,
        (b - from) % step == 0,
        a != b,
    ensures
        a + step <= b || b + step <= a,
{
    lemma_fundamental_div_mod(a - from, step);
    lemma_fundamental_div_mod(b - from, step);
    let qa = (a - from) / step;
    let qb = (b - from) / step;
    assert(qa < qb ==> step * qa + step <= step * qb) by (nonlinear_arith)
        requires
            step > 0,
    ;
    assert(qb < qa ==> step * qb + step <= step * qa) by (nonlinear_arith)
        requires
            step > 0,
    ;
}

/// A position past the first one is one of those from the next one on.
proof fn lemma_position_past(cur: int, step: int, a: int)
    requires
        step > 0,
        cur < a,
        (a - cur) % step == 0,
    ensures
        cur + step <= a,
        (a - (cur + step)) % step == 0,
{
    if a - cur < step {
        lemma_small_mod((a - cur) as nat, step as nat);
    }
    lemma_mod_add_multiples_vanish(a - cur - step, step);
}

/// Whether `w` are positions from `cur` on up to `last`, in ascending order and none of
/// them taken.
spec fn free_positions(
    w: Seq<int>,
    cur: int,
    last: int,
    step: int,
    taken: spec_fn(int) -> bool,
) -> bool {
    &&& forall|i: int|
        0 <= i < w.len() ==> cur <= #[trigger] w[i] <= last && (w[i] - cur) % step == 0 && !taken(
            w[i],
        )
    &&& forall|i: int, j: int| 0 <= i < j < w.len() ==> #[trigger] w[i] < #[trigger] w[j]
}

/// Free positions past the first one are free positions from the next one on.
proof fn lemma_free_positions_past(
    w: Seq<int>,
    cur: int,
    last: int,
    step: int,
    taken: spec_fn(int) -> bool,
)
    requires
        step > 0,
        free_positions(w, cur, last, step, taken),
        w.len() > 0 ==> w[0] != cur,
    ensures
        free_positions(w, cur + step, last, step, taken),
{
    assert forall|i: int| 0 <= i < w.len() implies cur + step <= #[trigger] w[i] <= last && (w[i]
        - (cur + step)) % step == 0 && !taken(w[i]) by {
        if i > 0 {
            assert(w[0] < w[i]);
        }
        lemma_position_past(cur, step, w[i]);
    }
}

/// Free positions but the first one are free positions from the next one on.
proof fn lemma_free_positions_drop(
    w: Seq<int>,
    cur: int,
    last: int,
    step: int,
    taken: spec_fn(int) -> bool,
)
    requires
        step > 0,
        w.len() > 0,
        free_positions(w, cur, last, step, taken),
    ensures
        free_positions(w.drop_first(), cur + step, last, step, taken),
{
    let v = w.drop_first();
    assert forall|i: int| 0 <= i < v.len() implies cur <= #[trigger] v[i] <= last && (v[i] - cur)
        % step == 0 && !taken(v[i]) by {
        assert(v[i] == w[i + 1]);
    }
    assert forall|i: int, j: int| 0
        <= i < j < v.len() implies #[trigger] v[i] < #[trigger] v[j] by {
        assert(v[i] == w[i + 1]);
        assert(v[j] == w[j + 1]);
    }
    if v.len() > 0 {
        assert(w[0] < w[1]);
        assert(v[0] == w[1]);
    }
    lemma_free_positions_past(v, cur, last, step, taken);
}

/// As many free positions as there is room for, each with a next one, let the search
/// succeed.
proof fn lemma_search_fills_room(
    cur: int,
    last: int,
    step: int,
    top: int,
    taken: spec_fn(int) -> bool,
    room: nat,
    w: Seq<int>,
)
    requires
        step > 0,
        w.len() == room,
        free_positions(w, cur, last, step, taken),
        forall|i: int| 0 <= i < w.len() ==> #[trigger] w[i] + step <= top,
    ensures
        free_from(cur, last, step, top, taken, room) is Some,
    decreases
            (if cur <= last {
                last - cur + 1
            } else {
                0
            }),
{
    if cur > last || room == 0 {
    } else {
        assert(w[0] + step <= top);
        if taken(cur) {
            lemma_free_positions_past(w, cur, last, step, taken);
            lemma_search_fills_room(cur + step, last, step, top, taken, room, w);
        } else {
            let v = w.drop_first();
            lemma_free_positions_drop(w, cur, last, step, taken);
            assert forall|i: int| 0 <= i < v.len() implies #[trigger] v[i] + step <= top by {
                assert(v[i] == w[i + 1]);
            }
            lemma_search_fills_room(cur + step, last, step, top, taken, (room - 1) as nat, v);
        }
    }
}

/// A search that does not fill its room has visited every position of the range.
proof fn lemma_search_visits_all(
    cur: int,
    last: int,
    step: int,
    top: int,
    taken: spec_fn(int) -> bool,
    room: nat,
    a: int,
)
    requires
        step > 0,
        free_from(cur, last, step, top, taken, room) is Some,
        free_from(cur, last, step, top, taken, room)->0.len() < room,
        cur <= a <= last,
        (a - cur) % step == 0,
    ensures
        a + step <= top,
    decreases
            (if cur <= last {
                last - cur + 1
            } else {
                0
            }),
{
    if a != cur {
        lemma_position_past(cur, step, a);
        let left = if taken(cur) {
            room
        } else {
            (room - 1) as nat
        };
        lemma_search_visits_all(cur + step, last, step, top, taken, left, a);
    }
}

/// Fewer free positions lie before one that is found than there is room for.
proof fn lemma_search_finds_first(
    cur: int,
    last: int,
    step: int,
    top: int,
    taken: spec_fn(int) -> bool,
    room: nat,
    a: int,
    w: Seq<int>,
)
    requires
        step > 0,
        free_from(cur, last, step, top, taken, room) is Some,
        free_from(cur, last, step, top, taken, room)->0.contains(a),
        w.len() == room,
        free_positions(w, cur, last, step, taken),
    ensures
        !(forall|i: int| 0 <= i < w.len() ==> #[trigger] w[i] < a),
    decreases
            (if cur <= last {
                last - cur + 1
            } else {
                0
            }),
{
    if cur <= last && room > 0 && forall|i: int| 0 <= i < w.len() ==> #[trigger] w[i] < a {
        assert(w[0] < a);
        let found = free_from(cur, last, step, top, taken, room)->0;
        let k = choose|k: int| 0 <= k < found.len() && found[k] == a;
        if taken(cur) {
            lemma_free_positions_past(w, cur, last, step, taken);
            lemma_search_finds_first(cur + step, last, step, top, taken, room, a, w);
        } else {
            let left = (room - 1) as nat;
            let rest = free_from(cur + step, last, step, top, taken, left)->0;
            assert(found == seq![cur] + rest);
            assert(k > 0);
            assert(rest[k - 1] == a);
            let v = w.drop_first();
            lemma_free_positions_drop(w, cur, last, step, taken);
            assert forall|i: int| 0 <= i < v.len() implies #[trigger] v[i] < a by {
                assert(v[i] == w[i + 1]);
            }
            lemma_search_finds_first(cur + step, last, step, top, taken, left, a, v);
        }
    }
}

/// The next IPv4 network starts as many addresses further as its prefix leaves room for,
/// and there is none exactly where that is past the last address.
pub proof fn law_next_v4_network(network: Ipv4Network, r: Result<Ipv4Network, NetworkError>)
    requires
        network.prefix <= 32,
        call_ensures(next_ipv4_network, (network,), r),
    ensures
        r is Ok <==> network.addr + pow2((32 - network.prefix) as nat) <= u32::MAX,
        r matches Ok(next) ==> next.prefix == network.prefix && next.addr == network.addr + pow2(
            (32 - network.prefix) as nat,
        ),
        r matches Err(e) ==> e == NetworkError::PastLastAddress,
{
}

/// The IPv4 subnets that a search finds are at most a hundred, in the range, of the
/// prefix that is searched for, and each lies a whole number of subnet sizes from the
/// first one. No lease holds one, they do not overlap, and none overlaps a lease of the
/// same prefix that lies on one of these positions.
pub proof fn law_found_v4_subnets_are_free(
    first: Ipv4Network,
    last: u32,
    leases: &[Lease],
    networks: Vec<Ipv4Network>,
)
    requires
        first.prefix <= 32,
        call_ensures(
            available_v4,
            (first, last, leases),
            Ok::<Vec<Ipv4Network>, NetworkError>(networks),
        ),
    ensures
        networks@.len() <= 100,
        forall|i: int|
            0 <= i < networks@.len() ==> {
                let size = pow2((32 - first.prefix) as nat) as int;
                &&& first.addr <= (#[trigger] networks@[i]).addr <= last
                &&& networks@[i].prefix == first.prefix
                &&& (networks@[i].addr - first.addr) % size == 0
                &&& networks@[i].addr + size <= u32::MAX
            },
        forall|i: int, k: int|
            0 <= i < networks@.len() && 0 <= k < leases@.len() ==> (#[trigger] leases@[k]).subnet
                != #[trigger] networks@[i],
        forall|i: int, j: int|
            0 <= i < j < networks@.len() ==> (#[trigger] networks@[i]).addr + pow2(
                (32 - first.prefix) as nat,
            ) <= (#[trigger] networks@[j]).addr,
        forall|i: int, k: int|
            0 <= i < networks@.len() && 0 <= k < leases@.len() && leases@[k].subnet.prefix
                == first.prefix && (leases@[k].subnet.addr - first.addr) % pow2(
                (32 - first.prefix) as nat,
            ) as int == 0 ==> {
                let size = pow2((32 - first.prefix) as nat) as int;
                ||| (#[trigger] leases@[k]).subnet.addr + size <= networks@[i].addr
                ||| (#[trigger] networks@[i]).addr + size <= leases@[k].subnet.addr
            },
{
    let size = pow2((32 - first.prefix) as nat) as int;
    let taken = v4_taken(leases@, first.prefix);
    lemma_pow2_pos((32 - first.prefix) as nat);
    law_search_is_sound(first.addr as int, last as int, size, u32::MAX as int, taken, 100);
    let found = v4_free(first.addr, last, first.prefix, leases@)->0;
    assert forall|i: int| 0 <= i < networks@.len() implies {
        &&& first.addr <= (#[trigger] networks@[i]).addr <= last
        &&& networks@[i].prefix == first.prefix
        &&& (networks@[i].addr - first.addr) % size == 0
        &&& networks@[i].addr + size <= u32::MAX
        &&& !taken(networks@[i].addr as int)
    } by {
        assert(networks@[i].addr == found[i]);
    }
    assert forall|i: int, k: int| 0 <= i < networks@.len() && 0 <= k < leases@.len() implies (
    #[trigger] leases@[k]).subnet != #[trigger] networks@[i] by {
        assert(!taken(networks@[i].addr as int));
    }
    assert forall|i: int, j: int| 0 <= i < j < networks@.len() implies (
    #[trigger] networks@[i]).addr + size <= (#[trigger] networks@[j]).addr by {
        assert(found[i] + size <= found[j]);
    }
    assert forall|i: int, k: int|
        0 <= i < networks@.len() && 0 <= k < leases@.len() && leases@[k].subnet.prefix
            == first.prefix && (leases@[k].subnet.addr - first.addr) % size == 0 implies {
        ||| (#[trigger] leases@[k]).subnet.addr + size <= networks@[i].addr
        ||| (#[trigger] networks@[i]).addr + size <= leases@[k].subnet.addr
    } by {
        assert(leases@[k].subnet != networks@[i]);
        lemma_positions_apart(
            first.addr as int,
            size,
            leases@[k].subnet.addr as int,
            networks@[i].addr as int,
        );
    }
}

/// A search for IPv4 subnets finds every position of the range that no lease holds,
/// unless a hundred of them come before it. One that finds fewer than a hundred has
/// looked at the whole range, in which every subnet then has a next one.
pub proof fn law_free_v4_subnets_are_found(
    first: Ipv4Network,
    last: u32,
    leases: &[Lease],
    networks: Vec<Ipv4Network>,
    a: u32,
)
    requires
        first.prefix <= 32,
        call_ensures(
            available_v4,
            (first, last, leases),
            Ok::<Vec<Ipv4Network>, NetworkError>(networks),
        ),
        first.addr <= a <= last,
        (a - first.addr) % pow2((32 - first.prefix) as nat) as int == 0,
    ensures
        (forall|k: int|
            0 <= k < leases@.len() ==> (#[trigger] leases@[k]).subnet != (Ipv4Network {
                addr: a,
                prefix: first.prefix,
            })) ==> {
            ||| networks@.contains(Ipv4Network { addr: a, prefix: first.prefix })
            ||| networks@.len() == 100 && forall|i: int|
                0 <= i < networks@.len() ==> (#[trigger] networks@[i]).addr < a
        },
        networks@.len() < 100 ==> a + pow2((32 - first.prefix) as nat) <= u32::MAX,
{
    let size = pow2((32 - first.prefix) as nat) as int;
    let taken = v4_taken(leases@, first.prefix);
    let held = Ipv4Network { addr: a, prefix: first.prefix };
    lemma_pow2_pos((32 - first.prefix) as nat);
    let found = v4_free(first.addr, last, first.prefix, leases@)->0;
    if networks@.len() < 100 {
        lemma_search_visits_all(
            first.addr as int,
            last as int,
            size,
            u32::MAX as int,
            taken,
            100,
            a as int,
        );
    }
    if forall|k: int| 0 <= k < leases@.len() ==> (#[trigger] leases@[k]).subnet != held {
        if taken(a as int) {
            let k = choose|k: int|
                0 <= k < leases@.len() && (#[trigger] leases@[k]).subnet.addr == a as int
                    && leases@[k].subnet.prefix == first.prefix;
            assert(leases@[k].subnet == held);
        }
        law_search_is_complete(
            first.addr as int,
            last as int,
            size,
            u32::MAX as int,
            taken,
            100,
            a as int,
        );
        if found.contains(a as int) {
            let i = choose|i: int| 0 <= i < found.len() && found[i] == a as int;
            assert(networks@[i] == held);
        } else {
            assert forall|i: int| 0 <= i < networks@.len() implies (
            #[trigger] networks@[i]).addr < a by {
                assert(networks@[i].addr == found[i]);
            }
        }
    }
}

/// A search for IPv4 subnets fails only for want of a next network: not where the last
/// address of the range leaves room for one, and not where a hundred free positions `w`
/// come before the end.
pub proof fn law_search_for_v4_succeeds(
    first: Ipv4Network,
    last: u32,
    leases: &[Lease],
    r: Result<Vec<Ipv4Network>, NetworkError>,
    w: Seq<u32>,
)
    requires
        first.prefix <= 32,
        call_ensures(available_v4, (first, last, leases), r),
    ensures
        r matches Err(e) ==> e == NetworkError::PastLastAddress,
        first.addr > last ==> (r matches Ok(networks) && networks@.len() == 0),
        last + pow2((32 - first.prefix) as nat) <= u32::MAX ==> r is Ok,
        w.len() == 100 && (forall|i: int|
            0 <= i < w.len() ==> {
                let size = pow2((32 - first.prefix) as nat) as int;
                &&& first.addr <= #[trigger] w[i] <= last
                &&& (w[i] - first.addr) % size == 0
                &&& w[i] + size <= u32::MAX
            }) && (forall|i: int, j: int|
            0 <= i < j < w.len() ==> #[trigger] w[i] < #[trigger] w[j]) && (forall|i: int, k: int|
            0 <= i < w.len() && 0 <= k < leases@.len() ==> (#[trigger] leases@[k]).subnet != (
            Ipv4Network { addr: #[trigger] w[i], prefix: first.prefix })) ==> r is Ok,
{
    let size = pow2((32 - first.prefix) as nat) as int;
    let taken = v4_taken(leases@, first.prefix);
    lemma_pow2_pos((32 - first.prefix) as nat);
    if last + size <= u32::MAX {
        law_search_succeeds(first.addr as int, last as int, size, u32::MAX as int, taken, 100);
    }
    if w.len() == 100 && (forall|i: int|
        0 <= i < w.len() ==> {
            &&& first.addr <= #[trigger] w[i] <= last
            &&& (w[i] - first.addr) % size == 0
            &&& w[i] + size <= u32::MAX
        }) && (forall|i: int, j: int|
        0 <= i < j < w.len() ==> #[trigger] w[i] < #[trigger] w[j]) && (forall|i: int, k: int|
        0 <= i < w.len() && 0 <= k < leases@.len() ==> (#[trigger] leases@[k]).subnet != (
        Ipv4Network { addr: #[trigger] w[i], prefix: first.prefix })) {
        let v = Seq::new(w.len(), |i: int| w[i] as int);
        assert forall|i: int| 0 <= i < v.len() implies first.addr <= #[trigger] v[i] <= last && (
        v[i] - first.addr) % size == 0 && !taken(v[i]) by {
            assert(v[i] == w[i]);
            if taken(v[i]) {
                let k = choose|k: int|
                    0 <= k < leases@.len() && (#[trigger] leases@[k]).subnet.addr == v[i]
                        && leases@[k].subnet.prefix == first.prefix;
                assert(leases@[k].subnet == (Ipv4Network { addr: w[i], prefix: first.prefix }));
            }
        }
        assert forall|i: int, j: int| 0 <= i < j < v.len() implies #[trigger] v[i]
            < #[trigger] v[j] by {
            assert(w[i] < w[j]);
        }
        assert forall|i: int| 0 <= i < v.len() implies #[trigger] v[i] + size <= u32::MAX by {
            assert(v[i] == w[i]);
        }
        lemma_search_fills_room(
            first.addr as int,
            last as int,
            size,
            u32::MAX as int,
            taken,
            100,
            v,
        );
    }
}

/// The next IPv6 network starts as many addresses further as its prefix leaves room for,
/// and there is none exactly where that is past the last address.
pub proof fn law_next_v6_network(network: Ipv6Network, r: Result<Ipv6Network, NetworkError>)
    requires
        network.prefix <= 128,
        call_ensures(next_ipv6_network, (network,), r),
    ensures
        r is Ok <==> network.addr + pow2((128 - network.prefix) as nat) <= u128::MAX,
        r matches Ok(next) ==> next.prefix == network.prefix && next.addr == network.addr + pow2(
            (128 - network.prefix) as nat,
        ),
        r matches Err(e) ==> e == NetworkError::PastLastAddress,
{
}

/// The IPv6 subnets that a search finds are at most a hundred, in the range, of the
/// prefix that is searched for, and each lies a whole number of subnet sizes from the
/// first one. No lease holds one, they do not overlap, and none overlaps a lease of the
/// same prefix that lies on one of these positions.
pub proof fn law_found_v6_subnets_are_free(
    first: Ipv6Network,
    last: u128,
    leases: &[Lease],
    networks: Vec<Ipv6Network>,
)
    requires
        first.prefix <= 128,
        call_ensures(
            available_v6,
            (first, last, leases),
            Ok::<Vec<Ipv6Network>, NetworkError>(networks),
        ),
    ensures
        networks@.len() <= 100,
        forall|i: int|
            0 <= i < networks@.len() ==> {
                let size = pow2((128 - first.prefix) as nat) as int;
                &&& first.addr <= (#[trigger] networks@[i]).addr <= last
                &&& networks@[i].prefix == first.prefix
                &&& (networks@[i].addr - first.addr) % size == 0
                &&& networks@[i].addr + size <= u128::MAX
            },
        forall|i: int, k: int|
            0 <= i < networks@.len() && 0 <= k < leases@.len()
                ==> (#[trigger] leases@[k]).ipv6_subnet
                != #[trigger] networks@[i],
        forall|i: int, j: int|
            0 <= i < j < networks@.len() ==> (#[trigger] networks@[i]).addr + pow2(
                (128 - first.prefix) as nat,
            ) <= (#[trigger] networks@[j]).addr,
        forall|i: int, k: int|
            0 <= i < networks@.len() && 0 <= k < leases@.len() && leases@[k].ipv6_subnet.prefix
                == first.prefix && (leases@[k].ipv6_subnet.addr - first.addr) % pow2(
                (128 - first.prefix) as nat,
            ) as int == 0 ==> {
                let size = pow2((128 - first.prefix) as nat) as int;
                ||| (#[trigger] leases@[k]).ipv6_subnet.addr + size <= networks@[i].addr
                ||| (#[trigger] networks@[i]).addr + size <= leases@[k].ipv6_subnet.addr
            },
{
    let size = pow2((128 - first.prefix) as nat) as int;
    let taken = v6_taken(leases@, first.prefix);
    lemma_pow2_pos((128 - first.prefix) as nat);
    law_search_is_sound(first.addr as int, last as int, size, u128::MAX as int, taken, 100);
    let found = v6_free(first.addr, last, first.prefix, leases@)->0;
    assert forall|i: int| 0 <= i < networks@.len() implies {
        &&& first.addr <= (#[trigger] networks@[i]).addr <= last
        &&& networks@[i].prefix == first.prefix
        &&& (networks@[i].addr - first.addr) % size == 0
        &&& networks@[i].addr + size <= u128::MAX
        &&& !taken(networks@[i].addr as int)
    } by {
        assert(networks@[i].addr == found[i]);
    }
    assert forall|i: int, k: int| 0 <= i < networks@.len() && 0 <= k < leases@.len() implies (
    #[trigger] leases@[k]).ipv6_subnet != #[trigger] networks@[i] by {
        assert(!taken(networks@[i].addr as int));
    }
    assert forall|i: int, j: int| 0 <= i < j < networks@.len() implies (
    #[trigger] networks@[i]).addr + size <= (#[trigger] networks@[j]).addr by {
        assert(found[i] + size <= found[j]);
    }
    assert forall|i: int, k: int|
        0 <= i < networks@.len() && 0 <= k < leases@.len() && leases@[k].ipv6_subnet.prefix
            == first.prefix && (leases@[k].ipv6_subnet.addr - first.addr) % size == 0 implies {
        ||| (#[trigger] leases@[k]).ipv6_subnet.addr + size <= networks@[i].addr
        ||| (#[trigger] networks@[i]).addr + size <= leases@[k].ipv6_subnet.addr
    } by {
        assert(leases@[k].ipv6_subnet != networks@[i]);
        lemma_positions_apart(
            first.addr as int,
            size,
            leases@[k].ipv6_subnet.addr as int,
            networks@[i].addr as int,
        );
    }
}

/// A search for IPv6 subnets finds every position of the range that no lease holds,
/// unless a hundred of them come before it. One that finds fewer than a hundred has
/// looked at the whole range, in which every subnet then has a next one.
pub proof fn law_free_v6_subnets_are_found(
    first: Ipv6Network,
    last: u128,
    leases: &[Lease],
    networks: Vec<Ipv6Network>,
    a: u128,
)
    requires
        first.prefix <= 128,
        call_ensures(
            available_v6,
            (first, last, leases),
            Ok::<Vec<Ipv6Network>, NetworkError>(networks),
        ),
        first.addr <= a <= last,
        (a - first.addr) % pow2((128 - first.prefix) as nat) as int == 0,
    ensures
        (forall|k: int|
            0 <= k < leases@.len() ==> (#[trigger] leases@[k]).ipv6_subnet != (Ipv6Network {
                addr: a,
                prefix: first.prefix,
            })) ==> {
            ||| networks@.contains(Ipv6Network { addr: a, prefix: first.prefix })
            ||| networks@.len() == 100 && forall|i: int|
                0 <= i < networks@.len() ==> (#[trigger] networks@[i]).addr < a
        },
        networks@.len() < 100 ==> a + pow2((128 - first.prefix) as nat) <= u128::MAX,
{
    let size = pow2((128 - first.prefix) as nat) as int;
    let taken = v6_taken(leases@, first.prefix);
    let held = Ipv6Network { addr: a, prefix: first.prefix };
    lemma_pow2_pos((128 - first.prefix) as nat);
    let found = v6_free(first.addr, last, first.prefix, leases@)->0;
    if networks@.len() < 100 {
        lemma_search_visits_all(
            first.addr as int,
            last as int,
            size,
            u128::MAX as int,
            taken,
            100,
            a as int,
        );
    }
    if forall|k: int| 0 <= k < leases@.len() ==> (#[trigger] leases@[k]).ipv6_subnet != held {
        if taken(a as int) {
            let k = choose|k: int|
                0 <= k < leases@.len() && (#[trigger] leases@[k]).ipv6_subnet.addr == a as int
                    && leases@[k].ipv6_subnet.prefix == first.prefix;
            assert(leases@[k].ipv6_subnet == held);
        }
        law_search_is_complete(
            first.addr as int,
            last as int,
            size,
            u128::MAX as int,
            taken,
            100,
            a as int,
        );
        if found.contains(a as int) {
            let i = choose|i: int| 0 <= i < found.len() && found[i] == a as int;
            assert(networks@[i] == held);
        } else {
            assert forall|i: int| 0 <= i < networks@.len() implies (
            #[trigger] networks@[i]).addr < a by {
                assert(networks@[i].addr == found[i]);
            }
        }
    }
}

/// A search for IPv6 subnets fails only for want of a next network: not where the last
/// address of the range leaves room for one, and not where a hundred free positions `w`
/// come before the end.
pub proof fn law_search_for_v6_succeeds(
    first: Ipv6Network,
    last: u128,
    leases: &[Lease],
    r: Result<Vec<Ipv6Network>, NetworkError>,
    w: Seq<u128>,
)
    requires
        first.prefix <= 128,
        call_ensures(available_v6, (first, last, leases), r),
    ensures
        r matches Err(e) ==> e == NetworkError::PastLastAddress,
        first.addr > last ==> (r matches Ok(networks) && networks@.len() == 0),
        last + pow2((128 - first.prefix) as nat) <= u128::MAX ==> r is Ok,
        w.len() == 100 && (forall|i: int|
            0 <= i < w.len() ==> {
                let size = pow2((128 - first.prefix) as nat) as int;
                &&& first.addr <= #[trigger] w[i] <= last
                &&& (w[i] - first.addr) % size == 0
                &&& w[i] + size <= u128::MAX
            }) && (forall|i: int, j: int|
            0 <= i < j < w.len() ==> #[trigger] w[i] < #[trigger] w[j]) && (forall|i: int, k: int|
            0 <= i < w.len() && 0 <= k < leases@.len() ==> (#[trigger] leases@[k]).ipv6_subnet != (
            Ipv6Network { addr: #[trigger] w[i], prefix: first.prefix })) ==> r is Ok,
{
    let size = pow2((128 - first.prefix) as nat) as int;
    let taken = v6_taken(leases@, first.prefix);
    lemma_pow2_pos((128 - first.prefix) as nat);
    if last + size <= u128::MAX {
        law_search_succeeds(first.addr as int, last as int, size, u128::MAX as int, taken, 100);
    }
    if w.len() == 100 && (forall|i: int|
        0 <= i < w.len() ==> {
            &&& first.addr <= #[trigger] w[i] <= last
            &&& (w[i] - first.addr) % size == 0
            &&& w[i] + size <= u128::MAX
        }) && (forall|i: int, j: int|
        0 <= i < j < w.len() ==> #[trigger] w[i] < #[trigger] w[j]) && (forall|i: int, k: int|
        0 <= i < w.len() && 0 <= k < leases@.len() ==> (#[trigger] leases@[k]).ipv6_subnet != (
        Ipv6Network { addr: #[trigger] w[i], prefix: first.prefix })) {
        let v = Seq::new(w.len(), |i: int| w[i] as int);
        assert forall|i: int| 0 <= i < v.len() implies first.addr <= #[trigger] v[i] <= last && (
        v[i] - first.addr) % size == 0 && !taken(v[i]) by {
            assert(v[i] == w[i]);
            if taken(v[i]) {
                let k = choose|k: int|
                    0 <= k < leases@.len() && (#[trigger] leases@[k]).ipv6_subnet.addr == v[i]
                        && leases@[k].ipv6_subnet.prefix == first.prefix;
                assert(leases@[k].ipv6_subnet
                    == (Ipv6Network { addr: w[i], prefix: first.prefix }));
            }
        }
        assert forall|i: int, j: int| 0 <= i < j < v.len() implies #[trigger] v[i]
            < #[trigger] v[j] by {
            assert(w[i] < w[j]);
        }
        assert forall|i: int| 0 <= i < v.len() implies #[trigger] v[i] + size <= u128::MAX by {
            assert(v[i] == w[i]);
        }
        lemma_search_fills_room(
            first.addr as int,
            last as int,
            size,
            u128::MAX as int,
            taken,
            100,
            v,
        );
    }
}

/// What an IPv4 subnet is that comes out of the search.
proof fn lemma_allocated_v4(config: Config, leases: Seq<Lease>, sn: Ipv4Network)
    requires
        config.subnet_min is Some,
        config.subnet_max is Some,
        config.subnet_len <= 32,
        sn.prefix == config.subnet_len,
        ({
            let found = v4_free(
                config.subnet_min->0,
                config.subnet_max->0,
                config.subnet_len,
                leases,
            );
            found is Some && found->0.contains(sn.addr as int)
        }),
    ensures
        ({
            let min = config.subnet_min->0;
            let size = pow2((32 - config.subnet_len) as nat) as int;
            &&& config.subnet_min is Some && config.subnet_max is Some && config.subnet_len <= 32
            &&& sn.prefix == config.subnet_len
            &&& min <= sn.addr <= config.subnet_max->0
            &&& (sn.addr - min) % size == 0
            &&& sn.addr + size <= u32::MAX
            &&& forall|k: int| 0 <= k < leases.len() ==> (#[trigger] leases[k]).subnet != sn
            &&& forall|k: int|
                0 <= k < leases.len() && leases[k].subnet.prefix == config.subnet_len
                    && (leases[k].subnet.addr - min)
                    % size == 0 ==> {
                    ||| (#[trigger] leases[k]).subnet.addr + size <= sn.addr
                    ||| sn.addr + size <= leases[k].subnet.addr
                }
        }),
{
    let min = config.subnet_min->0;
    let max = config.subnet_max->0;
    let size = pow2((32 - config.subnet_len) as nat) as int;
    let taken = v4_taken(leases, config.subnet_len);
    lemma_pow2_pos((32 - config.subnet_len) as nat);
    law_search_is_sound(min as int, max as int, size, u32::MAX as int, taken, 100);
    let found = v4_free(min, max, config.subnet_len, leases)->0;
    let i = choose|i: int| 0 <= i < found.len() && found[i] == sn.addr as int;
    assert(!taken(found[i]));
    assert forall|k: int|
        0 <= k < leases.len() && leases[k].subnet.prefix == config.subnet_len && (
        leases[k].subnet.addr - min) % size == 0 implies {
        ||| (#[trigger] leases[k]).subnet.addr + size <= sn.addr
        ||| sn.addr + size <= leases[k].subnet.addr
    } by {
        lemma_positions_apart(min as int, size, leases[k].subnet.addr as int, sn.addr as int);
    }
}

/// What an IPv6 subnet is that comes out of the search.
proof fn lemma_allocated_v6(config: Config, leases: Seq<Lease>, sn: Ipv6Network)
    requires
        config.ipv6_subnet_min is Some,
        config.ipv6_subnet_max is Some,
        config.ipv6_subnet_len <= 128,
        sn.prefix == config.ipv6_subnet_len,
        ({
            let found = v6_free(
                config.ipv6_subnet_min->0,
                config.ipv6_subnet_max->0,
                config.ipv6_subnet_len,
                leases,
            );
            found is Some && found->0.contains(sn.addr as int)
        }),
    ensures
        ({
            let min = config.ipv6_subnet_min->0;
            let size = pow2((128 - config.ipv6_subnet_len) as nat) as int;
            &&& config.ipv6_subnet_min is Some && config.ipv6_subnet_max is Some
                && config.ipv6_subnet_len <= 128
            &&& sn.prefix == config.ipv6_subnet_len
            &&& min <= sn.addr <= config.ipv6_subnet_max->0
            &&& (sn.addr - min) % size == 0
            &&& sn.addr + size <= u128::MAX
            &&& forall|k: int| 0 <= k < leases.len() ==> (#[trigger] leases[k]).ipv6_subnet != sn
            &&& forall|k: int|
                0 <= k < leases.len() && leases[k].ipv6_subnet.prefix == config.ipv6_subnet_len
                    && (leases[k].ipv6_subnet.addr - min)
                    % size == 0 ==> {
                    ||| (#[trigger] leases[k]).ipv6_subnet.addr + size <= sn.addr
                    ||| sn.addr + size <= leases[k].ipv6_subnet.addr
                }
        }),
{
    let min = config.ipv6_subnet_min->0;
    let max = config.ipv6_subnet_max->0;
    let size = pow2((128 - config.ipv6_subnet_len) as nat) as int;
    let taken = v6_taken(leases, config.ipv6_subnet_len);
    lemma_pow2_pos((128 - config.ipv6_subnet_len) as nat);
    law_search_is_sound(min as int, max as int, size, u128::MAX as int, taken, 100);
    let found = v6_free(min, max, config.ipv6_subnet_len, leases)->0;
    let i = choose|i: int| 0 <= i < found.len() && found[i] == sn.addr as int;
    assert(!taken(found[i]));
    assert forall|k: int|
        0 <= k < leases.len() && leases[k].ipv6_subnet.prefix == config.ipv6_subnet_len && (
        leases[k].ipv6_subnet.addr - min) % size == 0 implies {
        ||| (#[trigger] leases[k]).ipv6_subnet.addr + size <= sn.addr
        ||| sn.addr + size <= leases[k].ipv6_subnet.addr
    } by {
        lemma_positions_apart(min as int, size, leases[k].ipv6_subnet.addr as int, sn.addr as int);
    }
}

/// What subnets are that may be taken.
pub(crate) proof fn lemma_allocated(
    config: Config,
    leases: Seq<Lease>,
    sn: Ipv4Network,
    sn6: Option<Ipv6Network>,
)
    requires
        allocation_error(config, leases) is None,
        allocatable(config, leases, sn, sn6),
    ensures
        ({
            let min = config.subnet_min->0;
            let size = pow2((32 - config.subnet_len) as nat) as int;
            &&& config.subnet_min is Some && config.subnet_max is Some && config.subnet_len <= 32
            &&& sn.prefix == config.subnet_len
            &&& min <= sn.addr <= config.subnet_max->0
            &&& (sn.addr - min) % size == 0
            &&& sn.addr + size <= u32::MAX
            &&& forall|k: int| 0 <= k < leases.len() ==> (#[trigger] leases[k]).subnet != sn
            &&& forall|k: int|
                0 <= k < leases.len() && leases[k].subnet.prefix == config.subnet_len
                    && (leases[k].subnet.addr - min)
                    % size == 0 ==> {
                    ||| (#[trigger] leases[k]).subnet.addr + size <= sn.addr
                    ||| sn.addr + size <= leases[k].subnet.addr
                }
        }),
        sn6 is Some <==> config.enable_ipv6,
        sn6 matches Some(n) ==> ({
            let min = config.ipv6_subnet_min->0;
            let size = pow2((128 - config.ipv6_subnet_len) as nat) as int;
            &&& config.ipv6_subnet_min is Some && config.ipv6_subnet_max is Some
                && config.ipv6_subnet_len <= 128
            &&& n.prefix == config.ipv6_subnet_len
            &&& min <= n.addr <= config.ipv6_subnet_max->0
            &&& (n.addr - min) % size == 0
            &&& n.addr + size <= u128::MAX
            &&& forall|k: int| 0 <= k < leases.len() ==> (#[trigger] leases[k]).ipv6_subnet != n
            &&& forall|k: int|
                0 <= k < leases.len() && leases[k].ipv6_subnet.prefix == config.ipv6_subnet_len
                    && (leases[k].ipv6_subnet.addr - min)
                    % size == 0 ==> {
                    ||| (#[trigger] leases[k]).ipv6_subnet.addr + size <= n.addr
                    ||| n.addr + size <= leases[k].ipv6_subnet.addr
                }
        }),
{
    lemma_allocated_v4(config, leases, sn);
    if sn6 is Some {
        lemma_allocated_v6(config, leases, sn6->0);
    }
}

/// Subnets that are allocated lie in the ranges that the network is configured with,
/// have the configured prefixes, and are a whole number of subnet sizes from the start
/// of the range. No lease holds one of them or overlaps one on such a position. There is
/// an IPv6 subnet exactly where the network has IPv6.
pub proof fn law_allocated_subnets_are_free(
    m: LocalManager,
    config: Config,
    leases: &[Lease],
    sn: Ipv4Network,
    sn6: Option<Ipv6Network>,
)
    requires
        call_ensures(
            LocalManager::allocate_subnet,
            (&m, &config, leases),
            Ok::<(Ipv4Network, Option<Ipv6Network>), ManagerError>((sn, sn6)),
        ),
    ensures
        ({
            let min = config.subnet_min->0;
            let size = pow2((32 - config.subnet_len) as nat) as int;
            &&& config.subnet_min is Some && config.subnet_max is Some && config.subnet_len <= 32
            &&& sn.prefix == config.subnet_len
            &&& min <= sn.addr <= config.subnet_max->0
            &&& (sn.addr - min) % size == 0
            &&& sn.addr + size <= u32::MAX
            &&& forall|k: int| 0 <= k < leases@.len() ==> (#[trigger] leases@[k]).subnet != sn
            &&& forall|k: int|
                0 <= k < leases@.len() && leases@[k].subnet.prefix == config.subnet_len
                    && (leases@[k].subnet.addr - min)
                    % size == 0 ==> {
                    ||| (#[trigger] leases@[k]).subnet.addr + size <= sn.addr
                    ||| sn.addr + size <= leases@[k].subnet.addr
                }
        }),
        sn6 is Some <==> config.enable_ipv6,
        sn6 matches Some(n) ==> ({
            let min = config.ipv6_subnet_min->0;
            let size = pow2((128 - config.ipv6_subnet_len) as nat) as int;
            &&& config.ipv6_subnet_min is Some && config.ipv6_subnet_max is Some
                && config.ipv6_subnet_len <= 128
            &&& n.prefix == config.ipv6_subnet_len
            &&& min <= n.addr <= config.ipv6_subnet_max->0
            &&& (n.addr - min) % size == 0
            &&& n.addr + size <= u128::MAX
            &&& forall|k: int| 0 <= k < leases@.len() ==> (#[trigger] leases@[k]).ipv6_subnet != n
            &&& forall|k: int|
                0 <= k < leases@.len() && leases@[k].ipv6_subnet.prefix
                    == config.ipv6_subnet_len && (leases@[k].ipv6_subnet.addr - min)
                    % size == 0 ==> {
                    ||| (#[trigger] leases@[k]).ipv6_subnet.addr + size <= n.addr
                    ||| n.addr + size <= leases@[k].ipv6_subnet.addr
                }
        }),
{
    lemma_allocated(config, leases@, sn, sn6);
}

/// Fewer than a hundred free positions lie before an IPv4 subnet that may be taken.
pub(crate) proof fn lemma_v4_among_the_first(
    config: Config,
    leases: Seq<Lease>,
    sn: Ipv4Network,
    sn6: Option<Ipv6Network>,
    w: Seq<u32>,
)
    requires
        allocation_error(config, leases) is None,
        allocatable(config, leases, sn, sn6),
        w.len() == 100,
        forall|i: int|
            0 <= i < w.len() ==> config.subnet_min->0 <= #[trigger] w[i]
                <= config.subnet_max->0 && (w[i] - config.subnet_min->0) % pow2(
                (32 - config.subnet_len) as nat,
            ) as int == 0,
        forall|i: int, j: int| 0 <= i < j < w.len() ==> #[trigger] w[i] < #[trigger] w[j],
        forall|i: int, k: int|
            0 <= i < w.len() && 0 <= k < leases.len() ==> (#[trigger] leases[k]).subnet != (
            Ipv4Network { addr: #[trigger] w[i], prefix: config.subnet_len }),
    ensures
        w[99] >= sn.addr,
{
    let n = sn;
    let min = config.subnet_min->0;
    let max = config.subnet_max->0;
    let size = pow2((32 - config.subnet_len) as nat) as int;
    let taken = v4_taken(leases, config.subnet_len);
    lemma_pow2_pos((32 - config.subnet_len) as nat);
    let v = Seq::new(w.len(), |i: int| w[i] as int);
    assert forall|i: int| 0 <= i < v.len() implies min <= #[trigger] v[i] <= max && (v[i] - min)
        % size == 0 && !taken(v[i]) by {
        assert(v[i] == w[i]);
        if taken(v[i]) {
            let k = choose|k: int|
                0 <= k < leases.len() && (#[trigger] leases[k]).subnet.addr == v[i]
                    && leases[k].subnet.prefix == config.subnet_len;
            assert(leases[k].subnet == (Ipv4Network {
                addr: w[i],
                prefix: config.subnet_len,
            }));
        }
    }
    assert forall|i: int, j: int| 0
        <= i < j < v.len() implies #[trigger] v[i] < #[trigger] v[j] by {
        assert(w[i] < w[j]);
    }
    lemma_search_finds_first(
        min as int,
        max as int,
        size,
        u32::MAX as int,
        taken,
        100,
        n.addr as int,
        v,
    );
    let i = choose|i: int| 0 <= i < v.len() && !(#[trigger] v[i] < n.addr as int);
    assert(v[i] == w[i]);
    if i < 99 {
        assert(w[i] < w[99]);
    }
}

/// Fewer than a hundred free positions of the configured range lie before an IPv4
/// subnet that is allocated: a hundred free ones `w` do not all come before it.
pub proof fn law_allocated_v4_subnet_is_among_the_first(
    m: LocalManager,
    config: Config,
    leases: &[Lease],
    sn: Ipv4Network,
    sn6: Option<Ipv6Network>,
    w: Seq<u32>,
)
    requires
        call_ensures(
            LocalManager::allocate_subnet,
            (&m, &config, leases),
            Ok::<(Ipv4Network, Option<Ipv6Network>), ManagerError>((sn, sn6)),
        ),
        w.len() == 100,
        forall|i: int|
            0 <= i < w.len() ==> config.subnet_min->0 <= #[trigger] w[i]
                <= config.subnet_max->0 && (w[i] - config.subnet_min->0) % pow2(
                (32 - config.subnet_len) as nat,
            ) as int == 0,
        forall|i: int, j: int| 0 <= i < j < w.len() ==> #[trigger] w[i] < #[trigger] w[j],
        forall|i: int, k: int|
            0 <= i < w.len() && 0 <= k < leases@.len() ==> (#[trigger] leases@[k]).subnet != (
            Ipv4Network { addr: #[trigger] w[i], prefix: config.subnet_len }),
    ensures
        w[99] >= sn.addr,
{
    lemma_v4_among_the_first(config, leases@, sn, sn6, w);
}

/// Fewer than a hundred free positions lie before an IPv6 subnet that may be taken.
pub(crate) proof fn lemma_v6_among_the_first(
    config: Config,
    leases: Seq<Lease>,
    sn: Ipv4Network,
    sn6: Option<Ipv6Network>,
    w: Seq<u128>,
)
    requires
        allocation_error(config, leases) is None,
        allocatable(config, leases, sn, sn6),
        w.len() == 100,
        forall|i: int|
            0 <= i < w.len() ==> config.ipv6_subnet_min->0 <= #[trigger] w[i]
                <= config.ipv6_subnet_max->0 && (w[i] - config.ipv6_subnet_min->0) % pow2(
                (128 - config.ipv6_subnet_len) as nat,
            ) as int == 0,
        forall|i: int, j: int| 0 <= i < j < w.len() ==> #[trigger] w[i] < #[trigger] w[j],
        forall|i: int, k: int|
            0 <= i < w.len() && 0 <= k < leases.len() ==> (#[trigger] leases[k]).ipv6_subnet != (
            Ipv6Network { addr: #[trigger] w[i], prefix: config.ipv6_subnet_len }),
    ensures
        sn6 matches Some(n) ==> w[99] >= n.addr,
{
    if sn6 is Some {
    let n = sn6->0;
    let min = config.ipv6_subnet_min->0;
    let max = config.ipv6_subnet_max->0;
    let size = pow2((128 - config.ipv6_subnet_len) as nat) as int;
    let taken = v6_taken(leases, config.ipv6_subnet_len);
    lemma_pow2_pos((128 - config.ipv6_subnet_len) as nat);
    let v = Seq::new(w.len(), |i: int| w[i] as int);
    assert forall|i: int| 0 <= i < v.len() implies min <= #[trigger] v[i] <= max && (v[i] - min)
        % size == 0 && !taken(v[i]) by {
        assert(v[i] == w[i]);
        if taken(v[i]) {
            let k = choose|k: int|
                0 <= k < leases.len() && (#[trigger] leases[k]).ipv6_subnet.addr == v[i]
                    && leases[k].ipv6_subnet.prefix == config.ipv6_subnet_len;
            assert(leases[k].ipv6_subnet == (Ipv6Network {
                addr: w[i],
                prefix: config.ipv6_subnet_len,
            }));
        }
    }
    assert forall|i: int, j: int| 0
        <= i < j < v.len() implies #[trigger] v[i] < #[trigger] v[j] by {
        assert(w[i] < w[j]);
    }
    lemma_search_finds_first(
        min as int,
        max as int,
        size,
        u128::MAX as int,
        taken,
        100,
        n.addr as int,
        v,
    );
    let i = choose|i: int| 0 <= i < v.len() && !(#[trigger] v[i] < n.addr as int);
    assert(v[i] == w[i]);
    if i < 99 {
        assert(w[i] < w[99]);
    }
    }
}

/// Fewer than a hundred free positions of the configured range lie before an IPv6
/// subnet that is allocated: a hundred free ones `w` do not all come before it.
pub proof fn law_allocated_v6_subnet_is_among_the_first(
    m: LocalManager,
    config: Config,
    leases: &[Lease],
    sn: Ipv4Network,
    sn6: Option<Ipv6Network>,
    w: Seq<u128>,
)
    requires
        call_ensures(
            LocalManager::allocate_subnet,
            (&m, &config, leases),
            Ok::<(Ipv4Network, Option<Ipv6Network>), ManagerError>((sn, sn6)),
        ),
        w.len() == 100,
        forall|i: int|
            0 <= i < w.len() ==> config.ipv6_subnet_min->0 <= #[trigger] w[i]
                <= config.ipv6_subnet_max->0 && (w[i] - config.ipv6_subnet_min->0) % pow2(
                (128 - config.ipv6_subnet_len) as nat,
            ) as int == 0,
        forall|i: int, j: int| 0 <= i < j < w.len() ==> #[trigger] w[i] < #[trigger] w[j],
        forall|i: int, k: int|
            0 <= i < w.len() && 0 <= k < leases@.len() ==> (#[trigger] leases@[k]).ipv6_subnet != (
            Ipv6Network { addr: #[trigger] w[i], prefix: config.ipv6_subnet_len }),
    ensures
        sn6 matches Some(n) ==> w[99] >= n.addr,
{
    lemma_v6_among_the_first(config, leases@, sn, sn6, w);
}

/// The search for IPv4 subnets finds something where there are free ones and each that
/// is looked at has a next one.
proof fn lemma_search_v4_finds(config: Config, leases: Seq<Lease>, w4: Seq<u32>)
    requires
        ({
            let min = config.subnet_min->0;
            let max = config.subnet_max->0;
            let size = pow2((32 - config.subnet_len) as nat) as int;
            &&& config.subnet_min is Some && config.subnet_max is Some && config.subnet_len <= 32
            &&& w4.len() > 0
            &&& forall|i: int|
                0 <= i < w4.len() ==> min <= #[trigger] w4[i] <= max && (w4[i] - min) % size == 0
            &&& forall|i: int, j: int| 0 <= i < j < w4.len() ==> #[trigger] w4[i] < #[trigger] w4[j]
            &&& forall|i: int, k: int|
                0 <= i < w4.len() && 0 <= k < leases.len() ==> (#[trigger] leases[k]).subnet != (
                Ipv4Network { addr: #[trigger] w4[i], prefix: config.subnet_len })
            &&& max + size <= u32::MAX || (w4.len() == 100 && w4[99] + size <= u32::MAX)
        }),
    ensures
        ({
            let found = v4_free(
                config.subnet_min->0,
                config.subnet_max->0,
                config.subnet_len,
                leases,
            );
            found is Some && found->0.len() > 0
        }),
{
    let min = config.subnet_min->0;
    let max = config.subnet_max->0;
    let size = pow2((32 - config.subnet_len) as nat) as int;
    let taken = v4_taken(leases, config.subnet_len);
    lemma_pow2_pos((32 - config.subnet_len) as nat);
    let v = Seq::new(w4.len(), |i: int| w4[i] as int);
    assert forall|i: int| 0 <= i < v.len() implies min <= #[trigger] v[i] <= max && (v[i] - min)
        % size == 0 && !taken(v[i]) by {
        assert(v[i] == w4[i]);
        if taken(v[i]) {
            let k = choose|k: int|
                0 <= k < leases.len() && (#[trigger] leases[k]).subnet.addr == v[i]
                    && leases[k].subnet.prefix == config.subnet_len;
            assert(leases[k].subnet == (Ipv4Network {
                addr: w4[i],
                prefix: config.subnet_len,
            }));
        }
    }
    assert forall|i: int, j: int| 0
        <= i < j < v.len() implies #[trigger] v[i] < #[trigger] v[j] by {
        assert(w4[i] < w4[j]);
    }
    if max + size <= u32::MAX {
        law_search_succeeds(min as int, max as int, size, u32::MAX as int, taken, 100);
    } else {
        assert forall|i: int| 0 <= i < v.len() implies #[trigger] v[i] + size <= u32::MAX by {
            if i < 99 {
                assert(w4[i] < w4[99]);
            }
        }
        lemma_search_fills_room(min as int, max as int, size, u32::MAX as int, taken, 100, v);
    }
    assert(v[0] == w4[0]);
    law_search_is_complete(min as int, max as int, size, u32::MAX as int, taken, 100, v[0]);
}

/// The search for IPv6 subnets finds something where there are free ones and each that
/// is looked at has a next one.
proof fn lemma_search_v6_finds(config: Config, leases: Seq<Lease>, w6: Seq<u128>)
    requires
        ({
            let min = config.ipv6_subnet_min->0;
            let max = config.ipv6_subnet_max->0;
            let size = pow2((128 - config.ipv6_subnet_len) as nat) as int;
            &&& config.ipv6_subnet_min is Some && config.ipv6_subnet_max is Some
                && config.ipv6_subnet_len <= 128
            &&& w6.len() > 0
            &&& forall|i: int|
                0 <= i < w6.len() ==> min <= #[trigger] w6[i] <= max && (w6[i] - min) % size == 0
            &&& forall|i: int, j: int| 0 <= i < j < w6.len() ==> #[trigger] w6[i] < #[trigger] w6[j]
            &&& forall|i: int, k: int|
                0 <= i < w6.len() && 0 <= k < leases.len()
                    ==> (#[trigger] leases[k]).ipv6_subnet != (
                Ipv6Network { addr: #[trigger] w6[i], prefix: config.ipv6_subnet_len })
            &&& max + size <= u128::MAX || (w6.len() == 100 && w6[99] + size <= u128::MAX)
        }),
    ensures
        ({
            let found = v6_free(
                config.ipv6_subnet_min->0,
                config.ipv6_subnet_max->0,
                config.ipv6_subnet_len,
                leases,
            );
            found is Some && found->0.len() > 0
        }),
{
    let min = config.ipv6_subnet_min->0;
    let max = config.ipv6_subnet_max->0;
    let size = pow2((128 - config.ipv6_subnet_len) as nat) as int;
    let taken = v6_taken(leases, config.ipv6_subnet_len);
    lemma_pow2_pos((128 - config.ipv6_subnet_len) as nat);
    let v = Seq::new(w6.len(), |i: int| w6[i] as int);
    assert forall|i: int| 0 <= i < v.len() implies min <= #[trigger] v[i] <= max && (v[i] - min)
        % size == 0 && !taken(v[i]) by {
        assert(v[i] == w6[i]);
        if taken(v[i]) {
            let k = choose|k: int|
                0 <= k < leases.len() && (#[trigger] leases[k]).ipv6_subnet.addr == v[i]
                    && leases[k].ipv6_subnet.prefix == config.ipv6_subnet_len;
            assert(leases[k].ipv6_subnet == (Ipv6Network {
                addr: w6[i],
                prefix: config.ipv6_subnet_len,
            }));
        }
    }
    assert forall|i: int, j: int| 0
        <= i < j < v.len() implies #[trigger] v[i] < #[trigger] v[j] by {
        assert(w6[i] < w6[j]);
    }
    if max + size <= u128::MAX {
        law_search_succeeds(min as int, max as int, size, u128::MAX as int, taken, 100);
    } else {
        assert forall|i: int| 0 <= i < v.len() implies #[trigger] v[i] + size <= u128::MAX by {
            if i < 99 {
                assert(w6[i] < w6[99]);
            }
        }
        lemma_search_fills_room(min as int, max as int, size, u128::MAX as int, taken, 100, v);
    }
    assert(v[0] == w6[0]);
    law_search_is_complete(min as int, max as int, size, u128::MAX as int, taken, 100, v[0]);
}

/// Nothing speaks against an allocation where there is a free subnet of each kind.
pub(crate) proof fn lemma_allocation_succeeds(
    config: Config,
    leases: Seq<Lease>,
    w4: Seq<u32>,
    w6: Seq<u128>,
)
    requires
        ({
            let min = config.subnet_min->0;
            let max = config.subnet_max->0;
            let size = pow2((32 - config.subnet_len) as nat) as int;
            &&& config.subnet_min is Some && config.subnet_max is Some && config.subnet_len <= 32
            &&& w4.len() > 0
            &&& forall|i: int|
                0 <= i < w4.len() ==> min <= #[trigger] w4[i] <= max && (w4[i] - min) % size == 0
            &&& forall|i: int, j: int| 0 <= i < j < w4.len() ==> #[trigger] w4[i] < #[trigger] w4[j]
            &&& forall|i: int, k: int|
                0 <= i < w4.len() && 0 <= k < leases.len() ==> (#[trigger] leases[k]).subnet != (
                Ipv4Network { addr: #[trigger] w4[i], prefix: config.subnet_len })
            &&& max + size <= u32::MAX || (w4.len() == 100 && w4[99] + size <= u32::MAX)
        }),
        config.enable_ipv6 ==> ({
            let min = config.ipv6_subnet_min->0;
            let max = config.ipv6_subnet_max->0;
            let size = pow2((128 - config.ipv6_subnet_len) as nat) as int;
            &&& config.ipv6_subnet_min is Some && config.ipv6_subnet_max is Some
                && config.ipv6_subnet_len <= 128
            &&& w6.len() > 0
            &&& forall|i: int|
                0 <= i < w6.len() ==> min <= #[trigger] w6[i] <= max && (w6[i] - min) % size == 0
            &&& forall|i: int, j: int| 0 <= i < j < w6.len() ==> #[trigger] w6[i] < #[trigger] w6[j]
            &&& forall|i: int, k: int|
                0 <= i < w6.len() && 0 <= k < leases.len()
                    ==> (#[trigger] leases[k]).ipv6_subnet != (
                Ipv6Network { addr: #[trigger] w6[i], prefix: config.ipv6_subnet_len })
            &&& max + size <= u128::MAX || (w6.len() == 100 && w6[99] + size <= u128::MAX)
        }),
    ensures
        allocation_error(config, leases) is None,
{
    lemma_search_v4_finds(config, leases, w4);
    if config.enable_ipv6 {
        lemma_search_v6_finds(config, leases, w6);
    }
}

/// An allocation succeeds where there is a free subnet of each kind that the network
/// leases: free positions `w4` of the IPv4 range and, with IPv6, `w6` of the IPv6 range.
/// Either the whole range leaves room for a next subnet, or there are a hundred free ones
/// that do.
pub proof fn law_allocation_succeeds(
    m: LocalManager,
    config: Config,
    leases: &[Lease],
    r: Result<(Ipv4Network, Option<Ipv6Network>), ManagerError>,
    w4: Seq<u32>,
    w6: Seq<u128>,
)
    requires
        call_ensures(LocalManager::allocate_subnet, (&m, &config, leases), r),
        ({
            let min = config.subnet_min->0;
            let max = config.subnet_max->0;
            let size = pow2((32 - config.subnet_len) as nat) as int;
            &&& config.subnet_min is Some && config.subnet_max is Some && config.subnet_len <= 32
            &&& w4.len() > 0
            &&& forall|i: int|
                0 <= i < w4.len() ==> min <= #[trigger] w4[i] <= max && (w4[i] - min) % size == 0
            &&& forall|i: int, j: int| 0 <= i < j < w4.len() ==> #[trigger] w4[i] < #[trigger] w4[j]
            &&& forall|i: int, k: int|
                0 <= i < w4.len() && 0 <= k < leases@.len() ==> (#[trigger] leases@[k]).subnet != (
                Ipv4Network { addr: #[trigger] w4[i], prefix: config.subnet_len })
            &&& max + size <= u32::MAX || (w4.len() == 100 && w4[99] + size <= u32::MAX)
        }),
        config.enable_ipv6 ==> ({
            let min = config.ipv6_subnet_min->0;
            let max = config.ipv6_subnet_max->0;
            let size = pow2((128 - config.ipv6_subnet_len) as nat) as int;
            &&& config.ipv6_subnet_min is Some && config.ipv6_subnet_max is Some
                && config.ipv6_subnet_len <= 128
            &&& w6.len() > 0
            &&& forall|i: int|
                0 <= i < w6.len() ==> min <= #[trigger] w6[i] <= max && (w6[i] - min) % size == 0
            &&& forall|i: int, j: int| 0 <= i < j < w6.len() ==> #[trigger] w6[i] < #[trigger] w6[j]
            &&& forall|i: int, k: int|
                0 <= i < w6.len() && 0 <= k < leases@.len()
                    ==> (#[trigger] leases@[k]).ipv6_subnet != (
                Ipv6Network { addr: #[trigger] w6[i], prefix: config.ipv6_subnet_len })
            &&& max + size <= u128::MAX || (w6.len() == 100 && w6[99] + size <= u128::MAX)
        }),
    ensures
        r is Ok,
{
    lemma_allocation_succeeds(config, leases@, w4, w6);
}

/// Why an allocation is refused: a range without ends, prefixes that are too long, or a
/// range that reaches so far that a subnet has no next one, in this order. Otherwise
/// there are no free subnets.
pub proof fn law_allocation_refusals(
    m: LocalManager,
    config: Config,
    leases: &[Lease],
    r: Result<(Ipv4Network, Option<Ipv6Network>), ManagerError>,
)
    requires
        call_ensures(LocalManager::allocate_subnet, (&m, &config, leases), r),
    ensures
        (r matches Err(e) && e == ManagerError::MissingSubnetMin) <==> config.subnet_min is None,
        (r matches Err(e) && e == ManagerError::MissingSubnetMax) <==> config.subnet_min is Some
            && config.subnet_max is None,
        (r matches Err(e) && e == ManagerError::InvalidSubnetStart(NetworkError::InvalidPrefix))
            <==> config.subnet_min is Some && config.subnet_max is Some && config.subnet_len > 32,
        r matches Err(e) ==> e is InvalidIpv6SubnetStart ==> e
            == ManagerError::InvalidIpv6SubnetStart(NetworkError::InvalidPrefix)
            && config.enable_ipv6 && config.ipv6_subnet_min is Some
            && config.ipv6_subnet_max is Some
            && config.ipv6_subnet_len > 128,
        r matches Err(e) ==> e is NoNextNetwork ==> e == ManagerError::NoNextNetwork(
            NetworkError::PastLastAddress,
        ) && (config.subnet_max->0 + pow2((32 - config.subnet_len) as nat) > u32::MAX || (
        config.enable_ipv6 && config.ipv6_subnet_min is Some && config.ipv6_subnet_max is Some
            && config.ipv6_subnet_len <= 128 && config.ipv6_subnet_max->0 + pow2(
            (128 - config.ipv6_subnet_len) as nat,
        ) > u128::MAX)),
        r matches Err(e) ==> e is MissingSubnetMin || e is MissingSubnetMax
            || e is InvalidSubnetStart || e is InvalidIpv6SubnetStart || e is NoNextNetwork
            || e is OutOfSubnets,
        config.enable_ipv6 && config.ipv6_subnet_min is Some && config.ipv6_subnet_max is Some
            && config.ipv6_subnet_len > 128 ==> r is Err && !(r->Err_0 is OutOfSubnets),
{
    if config.subnet_min is Some && config.subnet_max is Some && config.subnet_len <= 32 {
        let size = pow2((32 - config.subnet_len) as nat) as int;
        lemma_pow2_pos((32 - config.subnet_len) as nat);
        if config.subnet_max->0 + size <= u32::MAX {
            law_search_succeeds(
                config.subnet_min->0 as int,
                config.subnet_max->0 as int,
                size,
                u32::MAX as int,
                v4_taken(leases@, config.subnet_len),
                100,
            );
        }
        if config.enable_ipv6 && config.ipv6_subnet_min is Some && config.ipv6_subnet_max is Some
            && config.ipv6_subnet_len <= 128 {
            let size6 = pow2((128 - config.ipv6_subnet_len) as nat) as int;
            lemma_pow2_pos((128 - config.ipv6_subnet_len) as nat);
            if config.ipv6_subnet_max->0 + size6 <= u128::MAX {
                law_search_succeeds(
                    config.ipv6_subnet_min->0 as int,
                    config.ipv6_subnet_max->0 as int,
                    size6,
                    u128::MAX as int,
                    v6_taken(leases@, config.ipv6_subnet_len),
                    100,
                );
            }
        }
    }
}

/// The network is out of subnets only where leases hold every position of a range: where
/// the position `a` of the IPv4 range is free, the network has IPv6, and it has no IPv6
/// range or a lease holds its position `b`.
pub proof fn law_out_of_subnets(
    m: LocalManager,
    config: Config,
    leases: &[Lease],
    a: u32,
    b: u128,
)
    requires
        call_ensures(
            LocalManager::allocate_subnet,
            (&m, &config, leases),
            Err::<(Ipv4Network, Option<Ipv6Network>), ManagerError>(ManagerError::OutOfSubnets),
        ),
        config.subnet_min->0 <= a <= config.subnet_max->0,
        (a - config.subnet_min->0) % pow2((32 - config.subnet_len) as nat) as int == 0,
        forall|k: int|
            0 <= k < leases@.len() ==> (#[trigger] leases@[k]).subnet != (Ipv4Network {
                addr: a,
                prefix: config.subnet_len,
            }),
    ensures
        config.enable_ipv6,
        config.ipv6_subnet_min is Some && config.ipv6_subnet_max is Some
            && config.ipv6_subnet_min->0 <= b <= config.ipv6_subnet_max->0 && (b
            - config.ipv6_subnet_min->0) % pow2((128 - config.ipv6_subnet_len) as nat) as int == 0
            ==> exists|k: int|
            0 <= k < leases@.len() && (#[trigger] leases@[k]).ipv6_subnet == (Ipv6Network {
                addr: b,
                prefix: config.ipv6_subnet_len,
            }),
{
    let taken = v4_taken(leases@, config.subnet_len);
    let size = pow2((32 - config.subnet_len) as nat) as int;
    lemma_pow2_pos((32 - config.subnet_len) as nat);
    if taken(a as int) {
        let k = choose|k: int|
            0 <= k < leases@.len() && (#[trigger] leases@[k]).subnet.addr == a as int
                && leases@[k].subnet.prefix == config.subnet_len;
        assert(leases@[k].subnet == (Ipv4Network { addr: a, prefix: config.subnet_len }));
    }
    law_search_is_complete(
        config.subnet_min->0 as int,
        config.subnet_max->0 as int,
        size,
        u32::MAX as int,
        taken,
        100,
        a as int,
    );
    if config.ipv6_subnet_min is Some && config.ipv6_subnet_max is Some
        && config.ipv6_subnet_min->0 <= b <= config.ipv6_subnet_max->0 && (b
        - config.ipv6_subnet_min->0) % pow2((128 - config.ipv6_subnet_len) as nat) as int == 0 {
        let taken6 = v6_taken(leases@, config.ipv6_subnet_len);
        lemma_pow2_pos((128 - config.ipv6_subnet_len) as nat);
        if !taken6(b as int) {
            law_search_is_complete(
                config.ipv6_subnet_min->0 as int,
                config.ipv6_subnet_max->0 as int,
                pow2((128 - config.ipv6_subnet_len) as nat) as int,
                u128::MAX as int,
                taken6,
                100,
                b as int,
            );
        }
        let k = choose|k: int|
            0 <= k < leases@.len() && (#[trigger] leases@[k]).ipv6_subnet.addr == b as int
                && leases@[k].ipv6_subnet.prefix == config.ipv6_subnet_len;
        assert(leases@[k].ipv6_subnet == (Ipv6Network {
            addr: b,
            prefix: config.ipv6_subnet_len,
        }));
    }
}

/// A subnet is leased exactly where some lease has its address and its prefix.
pub proof fn law_leased_subnets(
    leases: &[Lease],
    v4: Ipv4Network,
    v6: Ipv6Network,
    v4_held: bool,
    v6_held: bool,
)
    requires
        call_ensures(v4_leased, (leases, v4), v4_held),
        call_ensures(v6_leased, (leases, v6), v6_held),
    ensures
        v4_held <==> exists|k: int| 0 <= k < leases@.len() && (#[trigger] leases@[k]).subnet == v4,
        v6_held <==> exists|k: int|
            0 <= k < leases@.len() && (#[trigger] leases@[k]).ipv6_subnet == v6,
{
    if v4_held {
        let k = choose|k: int|
            0 <= k < leases@.len() && (#[trigger] leases@[k]).subnet.addr == v4.addr
                && leases@[k].subnet.prefix == v4.prefix;
        assert(leases@[k].subnet == v4);
    }
    if v6_held {
        let k = choose|k: int|
            0 <= k < leases@.len() && (#[trigger] leases@[k]).ipv6_subnet.addr == v6.addr
                && leases@[k].ipv6_subnet.prefix == v6.prefix;
        assert(leases@[k].ipv6_subnet == v6);
    }
}

/// Of the subnets that were chosen, the IPv4 one is taken, and the IPv6 one exactly
/// where there is IPv6. Nothing is taken where one that is needed is missing.
pub proof fn law_picked_subnets(
    enable_ipv6: bool,
    chosen_v4: Option<Ipv4Network>,
    chosen_v6: Option<Ipv6Network>,
    r: Result<(Ipv4Network, Option<Ipv6Network>), ManagerError>,
)
    requires
        call_ensures(pick_subnets, (enable_ipv6, chosen_v4, chosen_v6), r),
    ensures
        r is Ok <==> chosen_v4 is Some && (enable_ipv6 ==> chosen_v6 is Some),
        r matches Ok(taken) ==> Some(taken.0) == chosen_v4 && (enable_ipv6 ==> taken.1 == chosen_v6)
            && (!enable_ipv6 ==> taken.1 is None),
        r matches Err(e) ==> e == ManagerError::OutOfSubnets,
{
}

} // verus!
