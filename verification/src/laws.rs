//! The library's laws: guarantees stated over the spec functions of
//! [`crate::manager`] and [`crate::message`] and proved once and for all.
//!
//! The registry laws quantify over the registry's mathematical content (a
//! map from identifier to [`ClientView`]), so they cover every history of
//! operations, not single scenarios; the executable methods are proved
//! against the same spec functions, so the laws carry over to them
//! verbatim.  The codec law does the same for the hex payload rendering.

use vstd::prelude::*;

use crate::client::{ClientView, ConfigView};
use crate::errors::TransportError;
use crate::events::{ConnectEvent, ProbeEvent, ReceiveEvent, SendEvent};
use crate::manager;
use crate::message::{
    hex_digit_char, hex_digit_value, hex_parse_result, hex_string_of, is_separator,
    parse_hex_pairs, strip_separators,
};

verus! {

/// Creating the same identifier twice without an intervening removal is
/// refused: whatever the registry held before, the second `create` answers
/// `AlreadyExists` and changes nothing.
pub proof fn create_twice_already_exists(
    m: Map<Seq<char>, ClientView>,
    id: Seq<char>,
    c1: ConfigView,
    c2: ConfigView,
)
    ensures
        manager::create_step(manager::create_step(m, id, c1).0, id, c2).1 == Err::<
            (),
            TransportError,
        >(TransportError::AlreadyExists),
        manager::create_step(manager::create_step(m, id, c1).0, id, c2).0
            == manager::create_step(m, id, c1).0,
{
}

/// On an identifier that was never created (or was removed), every
/// operation except `create`, `list` and the idempotent `remove` answers
/// `NotFound`, and none of them changes the registry.
pub proof fn unknown_id_not_found(
    m: Map<Seq<char>, ClientView>,
    id: Seq<char>,
    cev: ConnectEvent,
    sev: SendEvent,
    rev: ReceiveEvent,
    srev: Option<ReceiveEvent>,
    pev: Option<ProbeEvent>,
)
    requires
        !m.contains_key(id),
    ensures
        manager::connect_step(m, id, cev).1 == Err::<(), TransportError>(TransportError::NotFound),
        manager::connect_step(m, id, cev).0 == m,
        manager::transfer_ready(m, id) == Err::<(), TransportError>(TransportError::NotFound),
        manager::send_step(m, id, sev) == Err::<(), TransportError>(TransportError::NotFound),
        manager::receive_step(m, id, rev) == Err::<Seq<u8>, TransportError>(
            TransportError::NotFound,
        ),
        manager::send_and_receive_step(m, id, sev, srev) == Err::<Seq<u8>, TransportError>(
            TransportError::NotFound,
        ),
        manager::disconnect_step(m, id).1 == Err::<(), TransportError>(TransportError::NotFound),
        manager::disconnect_step(m, id).0 == m,
        manager::is_connected_step(m, id) == Err::<bool, TransportError>(TransportError::NotFound),
        manager::check_step(m, id, pev).1 == Err::<bool, TransportError>(TransportError::NotFound),
        manager::check_step(m, id, pev).0 == m,
{
}

/// A created-but-never-connected connection reports itself unconnected, and
/// refuses send and receive with `NotConnected`.
pub proof fn fresh_connection_not_connected(
    m: Map<Seq<char>, ClientView>,
    id: Seq<char>,
    config: ConfigView,
    sev: SendEvent,
    rev: ReceiveEvent,
    srev: Option<ReceiveEvent>,
)
    requires
        !m.contains_key(id),
    ensures
        ({
            let m1 = manager::create_step(m, id, config).0;
            &&& manager::create_step(m, id, config).1 == Ok::<(), TransportError>(())
            &&& manager::is_connected_step(m1, id) == Ok::<bool, TransportError>(false)
            &&& manager::transfer_ready(m1, id) == Err::<(), TransportError>(
                TransportError::NotConnected,
            )
            &&& manager::send_step(m1, id, sev) == Err::<(), TransportError>(
                TransportError::NotConnected,
            )
            &&& manager::receive_step(m1, id, rev) == Err::<Seq<u8>, TransportError>(
                TransportError::NotConnected,
            )
            &&& manager::send_and_receive_step(m1, id, sev, srev) == Err::<Seq<u8>, TransportError>(
                TransportError::NotConnected,
            )
        }),
{
}

/// Lifecycle of a known identifier: after a successful connect it reports
/// connected; after a disconnect it reports unconnected; a further
/// disconnect succeeds and is a no-op.
pub proof fn connect_then_disconnect_lifecycle(m: Map<Seq<char>, ClientView>, id: Seq<char>)
    requires
        m.contains_key(id),
    ensures
        ({
            let (m1, r1) = manager::connect_step(m, id, ConnectEvent::Established);
            let (m2, r2) = manager::disconnect_step(m1, id);
            let (m3, r3) = manager::disconnect_step(m2, id);
            &&& r1 == Ok::<(), TransportError>(())
            &&& manager::is_connected_step(m1, id) == Ok::<bool, TransportError>(true)
            &&& r2 == Ok::<(), TransportError>(())
            &&& manager::is_connected_step(m2, id) == Ok::<bool, TransportError>(false)
            &&& r3 == Ok::<(), TransportError>(())
            &&& m3 =~= m2
        }),
{
    let m1 = manager::connect_step(m, id, ConnectEvent::Established).0;
    let m2 = manager::disconnect_step(m1, id).0;
    assert(manager::disconnect_step(m2, id).0 =~= m2);
}

/// After `remove`, the identifier is invisible: it is not in the domain the
/// identifier listing draws from, and the next lookup of any kind answers
/// `NotFound`.  `remove` itself succeeds whether or not the identifier was
/// present.
pub proof fn remove_hides_identifier(
    m: Map<Seq<char>, ClientView>,
    id: Seq<char>,
    cev: ConnectEvent,
    sev: SendEvent,
)
    ensures
        ({
            let m1 = manager::remove_step(m, id);
            &&& !m1.dom().contains(id)
            &&& manager::is_connected_step(m1, id) == Err::<bool, TransportError>(
                TransportError::NotFound,
            )
            &&& manager::connect_step(m1, id, cev).1 == Err::<(), TransportError>(
                TransportError::NotFound,
            )
            &&& manager::send_step(m1, id, sev) == Err::<(), TransportError>(
                TransportError::NotFound,
            )
        }),
{
}

/// Round trip through a connected transport: when the write went through
/// and the peer's answer arrived, the caller gets exactly those bytes.
pub proof fn echo_round_trip(m: Map<Seq<char>, ClientView>, id: Seq<char>, data: Vec<u8>)
    requires
        m.contains_key(id),
        m[id].connected,
    ensures
        manager::send_and_receive_step(m, id, SendEvent::Sent, Some(ReceiveEvent::Data(data)))
            == Ok::<Seq<u8>, TransportError>(data@),
{
}

/// Liveness detection: once the probe sees the peer's close, the answer is
/// `false`, the transport is unconnected, and a subsequent send is refused
/// with `NotConnected`.
pub proof fn peer_close_detected(m: Map<Seq<char>, ClientView>, id: Seq<char>, sev: SendEvent)
    requires
        m.contains_key(id),
        m[id].connected,
    ensures
        ({
            let (m1, r) = manager::check_step(m, id, Some(ProbeEvent::PeerClosed));
            &&& r == Ok::<bool, TransportError>(false)
            &&& manager::is_connected_step(m1, id) == Ok::<bool, TransportError>(false)
            &&& manager::send_step(m1, id, sev) == Err::<(), TransportError>(
                TransportError::NotConnected,
            )
        }),
{
}

proof fn lemma_strip_concat(a: Seq<char>, b: Seq<char>)
    ensures
        strip_separators(a + b) == strip_separators(a) + strip_separators(b),
    decreases b.len(),
{
    if b.len() == 0 {
        assert(a + b =~= a);
        assert(strip_separators(a) + strip_separators(b) =~= strip_separators(a));
    } else {
        lemma_strip_concat(a, b.drop_last());
        assert((a + b).drop_last() =~= a + b.drop_last());
        assert((a + b).last() == b.last());
        if !is_separator(b.last()) {
            assert(strip_separators(a) + strip_separators(b.drop_last()).push(b.last()) =~= (
            strip_separators(a) + strip_separators(b.drop_last())).push(b.last()));
        }
    }
}

proof fn lemma_digit_char_value(n: u8)
    requires
        n < 16,
    ensures
        hex_digit_value(hex_digit_char(n)) == Some(n),
        !is_separator(hex_digit_char(n)),
{
}

proof fn lemma_strip_digit_pair(c1: char, c2: char)
    requires
        !is_separator(c1),
        !is_separator(c2),
    ensures
        strip_separators(seq![c1, c2]) == seq![c1, c2],
{
    reveal_with_fuel(strip_separators, 4);
    let s = seq![c1, c2];
    assert(s.drop_last() =~= seq![c1]);
    assert(s.last() == c2);
    assert(seq![c1].drop_last() =~= Seq::<char>::empty());
    assert(seq![c1].last() == c1);
    assert(strip_separators(Seq::<char>::empty()).push(c1).push(c2) =~= s);
}

proof fn lemma_parse_append_pair(d: Seq<char>, c1: char, c2: char, hi: u8, lo: u8)
    requires
        d.len() % 2 == 0,
        hi < 16,
        lo < 16,
        hex_digit_value(c1) == Some(hi),
        hex_digit_value(c2) == Some(lo),
    ensures
        parse_hex_pairs(d + seq![c1, c2]) == match parse_hex_pairs(d) {
            Some(r) => Some(r.push((hi * 16 + lo) as u8)),
            None => None::<Seq<u8>>,
        },
    decreases d.len(),
{
    reveal_with_fuel(parse_hex_pairs, 4);
    let s = d + seq![c1, c2];
    let b = (hi * 16 + lo) as u8;
    if d.len() == 0 {
        assert(s.len() == 2);
        assert(s[0] == c1 && s[1] == c2);
        assert(s.skip(2) =~= Seq::<char>::empty());
        assert(seq![b] + Seq::<u8>::empty() =~= Seq::<u8>::empty().push(b));
    } else {
        assert(s[0] == d[0] && s[1] == d[1]);
        assert(s.skip(2) =~= d.skip(2) + seq![c1, c2]);
        lemma_parse_append_pair(d.skip(2), c1, c2, hi, lo);
        if let Some(h0) = hex_digit_value(d[0]) {
            if let Some(l0) = hex_digit_value(d[1]) {
                let b0 = (h0 * 16 + l0) as u8;
                if let Some(r) = parse_hex_pairs(d.skip(2)) {
                    assert(seq![b0] + r.push(b) =~= (seq![b0] + r).push(b));
                }
            }
        }
    }
}

proof fn lemma_render_digits(bytes: Seq<u8>)
    ensures
        strip_separators(hex_string_of(bytes)).len() == 2 * bytes.len(),
        parse_hex_pairs(strip_separators(hex_string_of(bytes))) == Some(bytes),
    decreases bytes.len(),
{
    broadcast use vstd::arithmetic::div_mod::lemma_fundamental_div_mod;

    if bytes.len() == 0 {
        assert(Seq::<u8>::empty() =~= bytes);
    } else {
        let b = bytes.last();
        let hi = (b / 16) as u8;
        let lo = (b % 16) as u8;
        let c1 = hex_digit_char(hi);
        let c2 = hex_digit_char(lo);
        lemma_digit_char_value(hi);
        lemma_digit_char_value(lo);
        lemma_strip_digit_pair(c1, c2);
        assert(hi * 16 + lo == b);
        if bytes.len() == 1 {
            assert(hex_string_of(bytes) == seq![c1, c2]);
            lemma_parse_append_pair(Seq::<char>::empty(), c1, c2, hi, lo);
            assert(Seq::<char>::empty() + seq![c1, c2] =~= seq![c1, c2]);
            assert(Seq::<u8>::empty().push(b) =~= bytes);
        } else {
            let rest = bytes.drop_last();
            lemma_render_digits(rest);
            let rendered = hex_string_of(rest);
            assert(hex_string_of(bytes) == rendered + seq![' '] + seq![c1, c2]);
            lemma_strip_concat(rendered, seq![' ']);
            lemma_strip_concat(rendered + seq![' '], seq![c1, c2]);
            reveal_with_fuel(strip_separators, 3);
            assert(seq![' '].drop_last() =~= Seq::<char>::empty());
            assert(seq![' '].last() == ' ');
            assert(strip_separators(seq![' ']) =~= Seq::<char>::empty());
            assert(strip_separators(rendered) + Seq::<char>::empty() =~= strip_separators(
                rendered,
            ));
            let digits = strip_separators(rendered);
            assert(strip_separators(hex_string_of(bytes)) == digits + seq![c1, c2]);
            lemma_parse_append_pair(digits, c1, c2, hi, lo);
            assert(rest.push(b) =~= bytes);
        }
    }
}

/// Round trip of the hex codec: rendering any bytes and reading the
/// rendering back yields exactly the original bytes, never an error.
pub proof fn hex_render_parse_round_trip(bytes: Seq<u8>)
    ensures
        hex_parse_result(hex_string_of(bytes)) == Ok::<Seq<u8>, Seq<char>>(bytes),
{
    lemma_render_digits(bytes);
}

} // verus!
