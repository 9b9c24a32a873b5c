//! What holds of networks, times, numbers, cursors and errors.
use vstd::arithmetic::div_mod::*;
use vstd::arithmetic::power2::*;
use vstd::prelude::*;

use crate::cursor::{get_next_index, Cursor, WatchCursor};
use crate::error::{
    is_err_etcd_node_exist, is_index_too_small, is_not_found, Code, ManagerError, StoreError,
    XlineRegistryError,
};
use crate::ip::{Ipv4Network, Ipv6Network, NetworkError};
use crate::lease::{Lease, LeaseAttrs, LeaseWatchResult};
use crate::manager::LocalManager;
use crate::text::{decimal, digits_value, integer_value, is_digits, is_signed, parse_i64};
use crate::time::{expiry, expiry_in_range, margin_fits, time_until, Pause, Timestamp};

verus! {

/// A network is its address and its prefix, which fits an address.
pub proof fn law_networks_are_what_they_are_given(
    addr4: u32,
    addr6: u128,
    prefix: u8,
    v4: Result<Ipv4Network, NetworkError>,
    v6: Result<Ipv6Network, NetworkError>,
)
    requires
        call_ensures(Ipv4Network::new, (addr4, prefix), v4),
        call_ensures(Ipv6Network::new, (addr6, prefix), v6),
    ensures
        v4 is Ok <==> prefix <= 32,
        v6 is Ok <==> prefix <= 128,
        v4 matches Ok(n) ==> n.addr == addr4 && n.prefix == prefix,
        v6 matches Ok(n) ==> n.addr == addr6 && n.prefix == prefix,
        v4 matches Err(e) ==> e == NetworkError::InvalidPrefix,
        v6 matches Err(e) ==> e == NetworkError::InvalidPrefix,
{
}

/// The lowest address of an IPv6 network is a multiple of the network's size, and the
/// address of the network is less than a size above it.
pub proof fn law_lowest_address(network: Ipv6Network, r: u128)
    requires
        network.prefix <= 128,
        call_ensures(Ipv6Network::network, (&network,), r),
    ensures
        r as nat % pow2((128 - network.prefix) as nat) == 0,
        r <= network.addr < r + pow2((128 - network.prefix) as nat),
{
    let size = pow2((128 - network.prefix) as nat);
    lemma_pow2_pos((128 - network.prefix) as nat);
    lemma_fundamental_div_mod(network.addr as int, size as int);
    lemma_mod_bound(network.addr as int, size as int);
    let q = network.addr as int / size as int;
    assert(r == size * q);
    lemma_mod_multiples_basic(q, size as int);
    assert(q * size == size * q) by (nonlinear_arith);
}

/// A manager is named after the subnet that it had before: the four bytes of the address in
/// decimal with dots between them, a slash and the prefix.
pub proof fn law_name_says_the_previous_subnet(m: LocalManager, r: String)
    requires
        call_ensures(LocalManager::name, (&m,), r),
    ensures
        m.previous_subnet is None ==> r@ == "Etcd Local Manager with Previous Subnet: "@ + "None"@,
        m.previous_subnet matches Some(sn) ==> r@
            == "Etcd Local Manager with Previous Subnet: "@ + (
        decimal(sn.addr as nat / 0x100_0000) + seq!['.'] + decimal(sn.addr as nat / 0x1_0000 % 256)
            + seq!['.'] + decimal(sn.addr as nat / 0x100 % 256) + seq!['.'] + decimal(
            sn.addr as nat % 256,
        ) + seq!['/'] + decimal(sn.prefix as nat)),
{
}

/// A network prints as the four bytes of its address in decimal with dots between them, a
/// slash and its prefix.
pub proof fn law_network_prints_in_dotted_decimal(network: Ipv4Network, r: String)
    requires
        call_ensures(Ipv4Network::to_text, (&network,), r),
    ensures
        r@ == decimal(network.addr as nat / 0x100_0000) + seq!['.'] + decimal(
            network.addr as nat / 0x1_0000 % 256,
        ) + seq!['.'] + decimal(network.addr as nat / 0x100 % 256) + seq!['.'] + decimal(
            network.addr as nat % 256,
        ) + seq!['/'] + decimal(network.prefix as nat),
{
}

/// What is there by default: the cursor before all history, the epoch, and leases, reports
/// and attributes in which nothing is set.
pub proof fn law_defaults_are_empty(
    cursor: Cursor,
    at: WatchCursor,
    time: Timestamp,
    attrs: LeaseAttrs,
    lease: Lease,
    report: LeaseWatchResult,
)
    requires
        call_ensures(<Cursor as Default>::default, (), cursor),
        call_ensures(<WatchCursor as Default>::default, (), at),
        call_ensures(<Timestamp as Default>::default, (), time),
        call_ensures(<LeaseAttrs as Default>::default, (), attrs),
        call_ensures(<Lease as Default>::default, (), lease),
        call_ensures(<LeaseWatchResult as Default>::default, (), report),
    ensures
        cursor is Str && cursor->Str_0@ == "0"@,
        at.index == 0,
        time.secs == 0 && time.nanos == 0,
        attrs.public_ip == 0 && attrs.backend_type@.len() == 0,
        attrs.backend_data is None && attrs.extra is None,
        !lease.enable_ipv4 && !lease.enable_ipv6,
        lease.subnet.addr == 0 && lease.subnet.prefix == 0,
        lease.ipv6_subnet.addr == 0 && lease.ipv6_subnet.prefix == 0,
        lease.attrs.public_ip == 0 && lease.attrs.backend_type@.len() == 0,
        lease.attrs.backend_data is None && lease.attrs.extra is None,
        lease.expiration.secs == 0 && lease.expiration.nanos == 0,
        lease.asof is None,
        report.events@.len() == 0 && report.snapshot@.len() == 0,
        report.cursor is Str && report.cursor->Str_0@ == "0"@,
{
}

/// A time that is moved by seconds is moved by exactly these, and keeps its nanoseconds.
pub proof fn law_expiry_is_seconds_later(now: Timestamp, ttl: i64, fits: bool, r: Timestamp)
    requires
        call_ensures(expiry, (now, ttl), r),
        call_ensures(expiry_in_range, (now, ttl), fits),
        i64::MIN <= now.secs + ttl <= i64::MAX,
    ensures
        r.secs == now.secs + ttl,
        r.nanos == now.nanos,
        fits <==> now.nanos < 1_000_000_000 && -8_334_601_228_800 <= now.secs <= 8_210_266_876_799
            && -8_334_601_228_800 <= now.secs + ttl <= 8_210_266_876_799,
{
}

/// A margin of minutes is taken off the time that is left, to the nanosecond, and nothing
/// is left where it is longer. It can be taken off where both times are in the calendar
/// and neither the margin nor what is left is longer than a span can be.
pub proof fn law_margin_is_taken_off(
    expiration: Timestamp,
    now: Timestamp,
    minutes: i64,
    fits: bool,
    r: Pause,
)
    requires
        call_ensures(margin_fits, (expiration, now, minutes), fits),
        call_ensures(time_until, (expiration, now, minutes), r),
    ensures
        ({
            let left = (expiration.secs - now.secs - 60 * minutes) * 1_000_000_000
                + expiration.nanos - now.nanos;
            &&& r.nanos < 1_000_000_000
            &&& r.secs * 1_000_000_000 + r.nanos == if left < 0 {
                0
            } else {
                left
            }
            &&& fits <==> {
                &&& expiration.nanos < 1_000_000_000 && now.nanos < 1_000_000_000
                &&& -8_334_601_228_800 <= expiration.secs <= 8_210_266_876_799
                &&& -8_334_601_228_800 <= now.secs <= 8_210_266_876_799
                &&& -9_223_372_036_854_775 <= 60 * minutes <= 9_223_372_036_854_775
                &&& -9_223_372_036_854_775_807_000_000 <= left <= 9_223_372_036_854_775_807_000_000
            }
        }),
{
}

/// One more digit makes a number ten times as large and adds the digit.
proof fn lemma_digits_push(s: Seq<char>, c: char)
    requires
        '0' <= c <= '9',
    ensures
        digits_value(s.push(c)) == 10 * digits_value(s) + (c as nat - '0' as nat),
        is_digits(s) ==> is_digits(s.push(c)),
{
    assert(s.push(c).drop_last() =~= s);
    if is_digits(s) {
        assert forall|i: int| 0 <= i < s.push(c).len() implies '0' <= #[trigger] s.push(c)[i]
            <= '9' by {
            if i < s.len() {
                assert(s.push(c)[i] == s[i]);
            }
        }
    }
}

/// Digits are read as the number that they write in decimal: a single digit is its value,
/// and one more digit makes the number ten times as large and adds the digit. A number
/// that does not fit is refused.
pub proof fn law_digits_are_read(
    s: &str,
    t: &str,
    c: char,
    read_s: Option<i64>,
    read_t: Option<i64>,
)
    requires
        call_ensures(parse_i64, (s,), read_s),
        call_ensures(parse_i64, (t,), read_t),
        t@ == s@.push(c),
        '0' <= c <= '9',
        forall|i: int| 0 <= i < s@.len() ==> '0' <= #[trigger] s@[i] <= '9',
    ensures
        s@.len() == 0 ==> read_s is None && read_t is Some && read_t->0 == c as int - '0' as int,
        s@.len() > 0 && read_s is None ==> read_t is None,
        read_s matches Some(v) ==> 0 <= v && read_t == if 10 * v + (c as int - '0' as int)
            <= i64::MAX {
            Some((10 * v + (c as int - '0' as int)) as i64)
        } else {
            None
        },
{
    lemma_digits_push(s@, c);
    assert forall|i: int| 0 <= i < t@.len() implies '0' <= #[trigger] t@[i] <= '9' by {
        if i < s@.len() {
            assert(t@[i] == s@[i]);
        }
    }
    if s@.len() > 0 {
        assert('0' <= s@[0] <= '9');
        assert(t@[0] == s@[0]);
    } else {
        assert(t@[0] == c);
    }
    assert(is_digits(t@));
    assert(!is_signed(t@));
}

/// Digits behind a minus are read as the number below zero: one more digit makes it ten
/// times as far from zero and takes the digit off. A number that does not fit is refused.
pub proof fn law_digits_behind_a_minus_are_read(
    s: &str,
    t: &str,
    c: char,
    read_s: Option<i64>,
    read_t: Option<i64>,
)
    requires
        call_ensures(parse_i64, (s,), read_s),
        call_ensures(parse_i64, (t,), read_t),
        t@ == s@.push(c),
        '0' <= c <= '9',
        s@.len() > 0,
        s@[0] == '-',
        forall|i: int| 1 <= i < s@.len() ==> '0' <= #[trigger] s@[i] <= '9',
    ensures
        s@.len() == 1 ==> read_s is None && read_t is Some && read_t->0 == '0' as int - c as int,
        s@.len() > 1 && read_s is None ==> read_t is None,
        read_s matches Some(v) ==> v <= 0 && read_t == if 10 * v - (c as int - '0' as int)
            >= i64::MIN {
            Some((10 * v - (c as int - '0' as int)) as i64)
        } else {
            None
        },
{
    let body = s@.skip(1);
    assert(t@.skip(1) =~= body.push(c));
    lemma_digits_push(body, c);
    assert forall|i: int| 0 <= i < body.len() implies '0' <= #[trigger] body[i] <= '9' by {
        assert(body[i] == s@[i + 1]);
    }
    assert forall|i: int| 0 <= i < body.push(c).len() implies '0' <= #[trigger] body.push(c)[i]
        <= '9' by {
        if i < body.len() {
            assert(body.push(c)[i] == body[i]);
        }
    }
    assert(is_digits(body.push(c)));
    assert(t@[0] == '-');
}

/// A plus in front of digits changes nothing.
pub proof fn law_plus_changes_nothing(
    s: &str,
    t: &str,
    read_s: Option<i64>,
    read_t: Option<i64>,
)
    requires
        call_ensures(parse_i64, (s,), read_s),
        call_ensures(parse_i64, (t,), read_t),
        t@ == seq!['+'] + s@,
        s@.len() > 0 ==> s@[0] != '+' && s@[0] != '-',
    ensures
        read_t == read_s,
{
    assert(t@.skip(1) =~= s@);
    assert(t@[0] == '+');
}

/// Only an optional sign and then digits, at least one, are read as a number.
pub proof fn law_only_digits_are_read(s: &str, r: Option<i64>)
    requires
        call_ensures(parse_i64, (s,), r),
    ensures
        r is Some ==> s@.len() > 0,
        r is Some ==> '0' <= s@[s@.len() - 1] <= '9',
        r is Some ==> s@[0] == '-' || s@[0] == '+' || '0' <= s@[0] <= '9',
        r is Some ==> forall|i: int| 1 <= i < s@.len() ==> '0' <= #[trigger] s@[i] <= '9',
{
    if r is Some {
        assert(integer_value(s@) is Some);
        if is_signed(s@) {
            let body = s@.skip(1);
            assert forall|i: int| 1 <= i < s@.len() implies '0' <= #[trigger] s@[i] <= '9' by {
                assert(body[i - 1] == s@[i]);
            }
            assert(s@[s@.len() - 1] == body[body.len() - 1]);
        } else {
            assert('0' <= s@[0] <= '9');
            assert('0' <= s@[s@.len() - 1] <= '9');
        }
    }
}

/// The next index is one past the cursor: one past its revision, or one past the number
/// that its text is read as. A text that is no number is refused, and named.
pub proof fn law_next_index_is_one_further(
    cursor: Cursor,
    text: &str,
    read: Option<i64>,
    r: Result<i64, ManagerError>,
)
    requires
        call_ensures(get_next_index, (&cursor,), r),
        call_ensures(parse_i64, (text,), read),
        cursor matches Cursor::Str(s) ==> s@ == text@,
    ensures
        cursor matches Cursor::Cursor(at) ==> (r matches Ok(next) && next == at.index + 1),
        cursor is Str && read is Some ==> r is Ok && r->Ok_0 == read->0 + 1,
        cursor is Str && read is None ==> r == Err::<i64, ManagerError>(
            ManagerError::BadCursor(cursor->Str_0),
        ),
{
}

/// An error says that a revision is gone exactly where it is a status of the store that is
/// out of range and whose text says that the revision was compacted. It says that a key
/// exists exactly where it is a status of the store with that code.
pub proof fn law_errors_are_told_by_their_status(
    err: XlineRegistryError,
    too_small: bool,
    exists_already: bool,
)
    requires
        call_ensures(is_index_too_small, (&err,), too_small),
        call_ensures(is_err_etcd_node_exist, (&err,), exists_already),
    ensures
        too_small <==> {
            &&& err is Xline && err->Xline_0.status is Some
            &&& err->Xline_0.status->0.code == Code::OutOfRange
            &&& exists|k: int|
                0 <= k <= err->Xline_0.status->0.message@.len()
                    - "required revision has been compacted"@.len()
                    && #[trigger] err->Xline_0.status->0.message@.subrange(
                    k,
                    k + "required revision has been compacted"@.len(),
                ) == "required revision has been compacted"@
        },
        exists_already <==> err is Xline && err->Xline_0.status is Some
            && err->Xline_0.status->0.code == Code::AlreadyExists,
{
}

/// An error says that nothing was found exactly where its text says so in one of the two
/// ways.
pub proof fn law_nothing_found_is_told_by_the_text(e: StoreError, r: bool)
    requires
        call_ensures(is_not_found, (&e,), r),
    ensures
        r <==> {
            ||| exists|k: int|
                0 <= k <= e.display@.len() - "Key not found"@.len()
                    && #[trigger] e.display@.subrange(
                    k,
                    k + "Key not found"@.len(),
                ) == "Key not found"@
            ||| exists|k: int|
                0 <= k <= e.display@.len() - "NOT_FOUND"@.len() && #[trigger] e.display@.subrange(
                    k,
                    k + "NOT_FOUND"@.len(),
                ) == "NOT_FOUND"@
        },
{
}

/// Errors print the text that they carry, whole and unchanged, behind what says of what it
/// speaks, or else a text of their own.
pub proof fn law_errors_print_what_they_carry(
    err: XlineRegistryError,
    manager_err: ManagerError,
    text: String,
    manager_text: String,
)
    requires
        call_ensures(XlineRegistryError::message, (&err,), text),
        call_ensures(ManagerError::message, (&manager_err,), manager_text),
    ensures
        err matches XlineRegistryError::Xline(e) ==> text@ == e.display@,
        err matches XlineRegistryError::Io(_, t) ==> text@ == t@,
        err matches XlineRegistryError::Tls(t) ==> text@ == t@,
        err matches XlineRegistryError::Utf8(t) ==> text@ == t@,
        err matches XlineRegistryError::Json(t) ==> text@ == t@,
        err matches XlineRegistryError::Other(t) ==> text@ == t@,
        err is TryAgain ==> text@ == "try again"@,
        err is ConfigNotFound ==> text@
            == "flannel config not found in xline store. Did you create your config using etcdv3 API?"@,
        err is NoWatchChannel ==> text@ == "no watch channel"@,
        err is SubnetAlreadyExists ==> text@ == "subnet already exists"@,
        manager_err is TryAgain ==> manager_text@ == "try again"@,
        manager_err is MaxRetries ==> manager_text@
            == "max retries reached trying to acquire a subnet"@,
        manager_err is MissingSubnetMin ==> manager_text@ == "Missing subnet_min"@,
        manager_err is MissingSubnetMax ==> manager_text@ == "Missing subnet_max"@,
        manager_err is OutOfSubnets ==> manager_text@ == "out of subnets"@,
        manager_err is SubnetNotFound ==> manager_text@ == "subnet not found"@,
        manager_err is LeaseRevoked ==> manager_text@ == "Lease revoked"@,
        manager_err is WatchCanceled ==> manager_text@ == "Watch canceled"@,
        manager_err == ManagerError::InvalidSubnetStart(NetworkError::InvalidPrefix)
            ==> manager_text@ == "Invalid subnet start: "@ + "invalid prefix"@,
        manager_err == ManagerError::InvalidIpv6SubnetStart(NetworkError::InvalidPrefix)
            ==> manager_text@ == "Invalid IPv6 subnet start: "@ + "invalid prefix"@,
        manager_err == ManagerError::Registry(err) ==> manager_text@ == text@,
        manager_err matches ManagerError::BadCursor(t) ==> manager_text@
            == "failed to parse cursor string: "@ + t@,
{
}

} // verus!
