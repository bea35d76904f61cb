//! Scanning for access points.

use vstd::prelude::*;

use crate::bytes;
use crate::linux::elements;
use crate::linux::elements::Scan;
use crate::linux::genl;
use crate::linux::genl::{AttrView, MsgView};
use crate::linux::model;
use crate::linux::model::{AccessPointView, NetlinkError, WifiAuthSuite, WifiEventKind};
use crate::linux::nl80211;

verus! {

// --- Elements --------------------------------------------------------------------------

/// An information element: its id and its data.
pub type Element = (u8, Seq<u8>);

/// Elements as they stand in a beacon: each with its id, its length and its data.
pub open spec fn wire(list: Seq<Element>) -> Seq<u8>
    decreases list.len(),
{
    if list.len() == 0 {
        Seq::empty()
    } else {
        seq![list[0].0, list[0].1.len() as u8] + list[0].1 + wire(list.skip(1))
    }
}

/// Whether the data of each element is short enough to stand in a beacon.
pub open spec fn writable(list: Seq<Element>) -> bool {
    forall|i: int| 0 <= i < list.len() ==> (#[trigger] list[i]).1.len() < 256
}

/// Whether an element is an RSN one.
pub open spec fn is_rsn(e: Element) -> bool {
    e.0 == 48
}

/// Whether an element is the vendor element of WPA.
pub open spec fn is_wpa(e: Element) -> bool {
    &&& e.0 == 221
    &&& e.1.len() >= 4
    &&& e.1[0] == 0x00
    &&& e.1[1] == 0x50
    &&& e.1[2] == 0xf2
    &&& e.1[3] == 0x01
}

/// What an element says of security, without the mark of the vendor.
pub open spec fn body(e: Element) -> Seq<u8> {
    if is_wpa(e) {
        e.1.skip(4)
    } else {
        e.1
    }
}

/// The number in two octets, the least significant first.
pub open spec fn count_at(data: Seq<u8>, k: int) -> int {
    data[k] + 256 * data[k + 1]
}

/// The number in four octets, the least significant first.
pub open spec fn number_at(data: Seq<u8>, k: int) -> int {
    data[k] + 256 * data[k + 1] + 65536 * data[k + 2] + 16777216 * data[k + 3]
}

/// Where the numbers of the authentication suites start: a version in two octets, a
/// group cipher in four, the count of pairwise ciphers in two, four for each of them,
/// and the count of suites in two go before them.
pub open spec fn first_suite(data: Seq<u8>) -> int {
    2 + 4 + 2 + 4 * count_at(data, 6) + 2
}

/// How many authentication suites are listed.
pub open spec fn suite_count(data: Seq<u8>) -> int {
    count_at(data, first_suite(data) - 2)
}

/// Whether everything that is counted is there.
pub open spec fn is_whole(data: Seq<u8>) -> bool {
    &&& data.len() >= 8
    &&& data.len() >= first_suite(data)
    &&& data.len() >= first_suite(data) + 4 * suite_count(data)
}

/// Whether the capabilities behind the suites tell of protected management frames,
/// as able or as required.
pub open spec fn protects(data: Seq<u8>) -> bool {
    let end = first_suite(data) + 4 * suite_count(data);
    data.len() >= end + 2 && (data[end] / 128 % 2 == 1 || data[end] / 64 % 2 == 1)
}

/// Whether an element of a list announces a suite.
pub open spec fn announces(e: Element, suite: WifiAuthSuite) -> bool {
    exists|i: int| 0 <= i < suite_count(body(e)) && #[trigger] is_suite(e, i, suite)
}

/// Whether the suite at a place of an element's list is the given one.
pub open spec fn is_suite(e: Element, i: int, suite: WifiAuthSuite) -> bool {
    let number = number_at(body(e), first_suite(body(e)) + 4 * i);
    if is_rsn(e) {
        suite == WifiAuthSuite::of_rsn(number as u32)
    } else {
        is_wpa(e) && suite == WifiAuthSuite::of_wpa(number as u32)
    }
}

/// The numbers of the RSN suites.
pub proof fn lemma_rsn_numbers(number: u32)
    ensures
        WifiAuthSuite::of_rsn(0x000FAC01) == WifiAuthSuite::Rsn8021x,
        WifiAuthSuite::of_rsn(0x000FAC02) == WifiAuthSuite::RsnPsk,
        WifiAuthSuite::of_rsn(0x000FAC03) == WifiAuthSuite::RsnFt8021x,
        WifiAuthSuite::of_rsn(0x000FAC04) == WifiAuthSuite::RsnFtPsk,
        WifiAuthSuite::of_rsn(0x000FAC05) == WifiAuthSuite::Rsn8021xSha256,
        WifiAuthSuite::of_rsn(0x000FAC06) == WifiAuthSuite::RsnPskSha256,
        WifiAuthSuite::of_rsn(0x000FAC08) == WifiAuthSuite::RsnSae,
        WifiAuthSuite::of_rsn(0x000FAC09) == WifiAuthSuite::RsnSaeFt,
        WifiAuthSuite::of_rsn(0x000FAC0A) == WifiAuthSuite::RsnApPsk,
        WifiAuthSuite::of_rsn(0x000FAC0B) == WifiAuthSuite::RsnSuiteB,
        WifiAuthSuite::of_rsn(0x000FAC0C) == WifiAuthSuite::RsnSuiteB192,
        WifiAuthSuite::of_rsn(0x000FAC0D) == WifiAuthSuite::RsnFt8021xSha384,
        WifiAuthSuite::of_rsn(0x000FAC0E) == WifiAuthSuite::RsnFilsSha256,
        WifiAuthSuite::of_rsn(0x000FAC0F) == WifiAuthSuite::RsnFilsSha384,
        WifiAuthSuite::of_rsn(0x000FAC10) == WifiAuthSuite::RsnFtFilsSha256,
        WifiAuthSuite::of_rsn(0x000FAC11) == WifiAuthSuite::RsnFtFilsSha384,
        WifiAuthSuite::of_rsn(0x000FAC12) == WifiAuthSuite::RsnOwe,
        WifiAuthSuite::of_rsn(0x000FAC13) == WifiAuthSuite::RsnFtPskSha384,
        WifiAuthSuite::of_rsn(0x000FAC14) == WifiAuthSuite::RsnPskSha384,
        WifiAuthSuite::of_rsn(0x000FAC15) == WifiAuthSuite::RsnPasn,
        number == 0x000FAC07 || number < 0x000FAC01 || number > 0x000FAC15
            ==> WifiAuthSuite::of_rsn(number) == WifiAuthSuite::Other(number),
        WifiAuthSuite::of_wpa(1) == WifiAuthSuite::Wpa18021x,
        WifiAuthSuite::of_wpa(2) == WifiAuthSuite::Wpa1Psk,
        number != 1 && number != 2 ==> WifiAuthSuite::of_wpa(number) == WifiAuthSuite::Other(
            number,
        ),
{
}

/// What a list of elements taught agrees with the list.
spec fn agrees(scan: Scan, list: Seq<Element>) -> bool {
    &&& scan.rsn <==> exists|i: int| 0 <= i < list.len() && is_rsn(#[trigger] list[i])
    &&& scan.wpa <==> exists|i: int| 0 <= i < list.len() && is_wpa(#[trigger] list[i])
    &&& scan.protected <==> exists|i: int|
        0 <= i < list.len() && is_rsn(#[trigger] list[i]) && protects(list[i].1)
    &&& forall|suite: WifiAuthSuite| #[trigger]
        scan.suites.contains(suite) <==> exists|i: int|
            0 <= i < list.len() && announces(#[trigger] list[i], suite)
}

proof fn lemma_protects(data: Seq<u8>, end: int)
    requires
        0 <= end,
        end + 2 <= data.len(),
    ensures
        (bytes::le16(data, end) / 64 % 4 != 0) == (data[end] / 128 % 2 == 1 || data[end] / 64 % 2
            == 1),
{
    let low = data[end] as int;
    let high = data[end + 1] as int;
    assert((low + 256 * high) / 64 == low / 64 + 4 * high);
    assert((low / 64 + 4 * high) % 4 == low / 64 % 4);
}

proof fn lemma_number(data: Seq<u8>, k: int)
    requires
        0 <= k,
        k + 4 <= data.len(),
    ensures
        bytes::le32(data, k) == number_at(data, k),
{
}

/// One element is refused when something that it counts is missing, and otherwise
/// teaches what stands in it.
proof fn lemma_element(e: Element)
    requires
        e.1.len() < 256,
    ensures
        elements::element_scan(e.0, e.1) is Ok <==> ((is_rsn(e) || is_wpa(e)) ==> is_whole(body(e))),
        elements::element_scan(e.0, e.1) matches Ok(scan) ==> {
            &&& scan.rsn == is_rsn(e)
            &&& scan.wpa == is_wpa(e)
            &&& scan.protected == (is_rsn(e) && protects(e.1))
            &&& if is_rsn(e) || is_wpa(e) {
                scan.suites.len() == suite_count(body(e)) && forall|i: int|
                    0 <= i < scan.suites.len() ==> is_suite(e, i, #[trigger] scan.suites[i])
            } else {
                scan.suites.len() == 0
            }
        },
{
    reveal(elements::element_scan);
    let data = e.1;
    assert(is_wpa(e) <==> e.0 == 221 && data.len() >= 4 && data.take(4) == seq![
        0x00u8,
        0x50u8,
        0xf2u8,
        0x01u8,
    ]) by {
        if is_wpa(e) {
            assert(data.take(4) =~= seq![0x00u8, 0x50u8, 0xf2u8, 0x01u8]);
        }
        if data.len() >= 4 && data.take(4) == seq![0x00u8, 0x50u8, 0xf2u8, 0x01u8] {
            assert(data.take(4)[0] == data[0]);
            assert(data.take(4)[1] == data[1]);
            assert(data.take(4)[2] == data[2]);
            assert(data.take(4)[3] == data[3]);
        }
    }
    if is_rsn(e) || is_wpa(e) {
        let inner = body(e);
        if let Ok(scan) = elements::element_scan(e.0, e.1) {
            assert forall|i: int| 0 <= i < scan.suites.len() implies is_suite(
                e,
                i,
                #[trigger] scan.suites[i],
            ) by {
                lemma_number(inner, first_suite(inner) + 4 * i);
            }
            let end = first_suite(inner) + 4 * suite_count(inner);
            if end + 2 <= inner.len() {
                lemma_protects(inner, end);
            }
        }
    }
}

proof fn lemma_scan(list: Seq<Element>)
    requires
        writable(list),
    ensures
        elements::scan_of(wire(list)) is Ok <==> forall|i: int|
            0 <= i < list.len() && (is_rsn(list[i]) || is_wpa(list[i])) ==> is_whole(
                body(#[trigger] list[i]),
            ),
        elements::scan_of(wire(list)) matches Ok(scan) ==> agrees(scan, list),
    decreases list.len(),
{
    let ies = wire(list);
    if list.len() > 0 {
        let e = list[0];
        let more = list.skip(1);
        assert(e.1.len() < 256);
        assert forall|i: int| 0 <= i < more.len() implies (#[trigger] more[i]).1.len() < 256 by {
            assert(more[i] == list[i + 1]);
        }
        lemma_scan(more);
        lemma_element(e);
        let n = e.1.len() as int;
        assert(ies[0] == e.0 && ies[1] == n);
        assert(ies.subrange(2, 2 + n) =~= e.1);
        assert(ies.skip(2 + n) =~= wire(more));
        lemma_scan_step(list);
        if let Ok(scan) = elements::scan_of(ies) {
            let first = elements::element_scan(e.0, e.1)->Ok_0;
            let rest = elements::scan_of(wire(more))->Ok_0;
            assert(scan == first.with(rest));
            lemma_agrees_step(list, first, rest);
        }
    } else {
        assert(elements::scan_of(ies) == Ok::<Scan, NetlinkError>(Scan::nothing()));
    }
}

proof fn lemma_scan_step(list: Seq<Element>)
    requires
        list.len() > 0,
    ensures
        (forall|i: int|
            0 <= i < list.len() && (is_rsn(list[i]) || is_wpa(list[i])) ==> is_whole(
                body(#[trigger] list[i]),
            )) <==> ((is_rsn(list[0]) || is_wpa(list[0])) ==> is_whole(body(list[0]))) && (forall|
            i: int,
        |
            0 <= i < list.skip(1).len() && (is_rsn(list.skip(1)[i]) || is_wpa(list.skip(1)[i]))
                ==> is_whole(body(#[trigger] list.skip(1)[i]))),
{
    let more = list.skip(1);
    if ((is_rsn(list[0]) || is_wpa(list[0])) ==> is_whole(body(list[0]))) && (forall|i: int|
        0 <= i < more.len() && (is_rsn(more[i]) || is_wpa(more[i])) ==> is_whole(
            body(#[trigger] more[i]),
        )) {
        assert forall|i: int|
            0 <= i < list.len() && (is_rsn(list[i]) || is_wpa(list[i])) implies is_whole(
            body(#[trigger] list[i]),
        ) by {
            if i > 0 {
                assert(more[i - 1] == list[i]);
            }
        }
    }
    if forall|i: int|
        0 <= i < list.len() && (is_rsn(list[i]) || is_wpa(list[i])) ==> is_whole(
            body(#[trigger] list[i]),
        ) {
        assert forall|i: int|
            0 <= i < more.len() && (is_rsn(more[i]) || is_wpa(more[i])) implies is_whole(
            body(#[trigger] more[i]),
        ) by {
            assert(more[i] == list[i + 1]);
        }
    }
}

proof fn lemma_agrees_step(list: Seq<Element>, first: Scan, rest: Scan)
    requires
        list.len() > 0,
        list[0].1.len() < 256,
        elements::element_scan(list[0].0, list[0].1) == Ok::<Scan, NetlinkError>(first),
        agrees(rest, list.skip(1)),
    ensures
        agrees(first.with(rest), list),
{
    let e = list[0];
    let more = list.skip(1);
    let scan = first.with(rest);
    lemma_element(e);
    lemma_flags(list);
    assert forall|suite: WifiAuthSuite| #[trigger]
        scan.suites.contains(suite) <==> exists|i: int|
            0 <= i < list.len() && announces(#[trigger] list[i], suite) by {
        lemma_announced(e, first, suite);
        if scan.suites.contains(suite) {
            let k = choose|k: int| 0 <= k < scan.suites.len() && scan.suites[k] == suite;
            if k < first.suites.len() {
                assert(first.suites.contains(first.suites[k]));
                assert(announces(list[0], suite));
            } else {
                assert(rest.suites.contains(rest.suites[k - first.suites.len()]));
                let i = choose|i: int| 0 <= i < more.len() && announces(#[trigger] more[i], suite);
                assert(more[i] == list[i + 1]);
            }
        }
        if exists|i: int| 0 <= i < list.len() && announces(#[trigger] list[i], suite) {
            let i = choose|i: int| 0 <= i < list.len() && announces(#[trigger] list[i], suite);
            if i == 0 {
                let k = choose|k: int| 0 <= k < first.suites.len() && first.suites[k] == suite;
                assert(scan.suites[k] == suite);
            } else {
                assert(more[i - 1] == list[i]);
                assert(rest.suites.contains(suite));
                let k = choose|k: int| 0 <= k < rest.suites.len() && rest.suites[k] == suite;
                assert(scan.suites[first.suites.len() + k] == suite);
            }
        }
    }
}

proof fn lemma_flags(list: Seq<Element>)
    requires
        list.len() > 0,
    ensures
        (exists|i: int| 0 <= i < list.len() && is_rsn(#[trigger] list[i])) <==> is_rsn(list[0]) || (
        exists|i: int| 0 <= i < list.skip(1).len() && is_rsn(#[trigger] list.skip(1)[i])),
        (exists|i: int| 0 <= i < list.len() && is_wpa(#[trigger] list[i])) <==> is_wpa(list[0]) || (
        exists|i: int| 0 <= i < list.skip(1).len() && is_wpa(#[trigger] list.skip(1)[i])),
        (exists|i: int|
            0 <= i < list.len() && is_rsn(#[trigger] list[i]) && protects(list[i].1)) <==> (is_rsn(
            list[0],
        ) && protects(list[0].1)) || (exists|i: int|
            0 <= i < list.skip(1).len() && is_rsn(#[trigger] list.skip(1)[i]) && protects(
                list.skip(1)[i].1,
            )),
{
    let more = list.skip(1);
    assert forall|i: int| 0 < i < list.len() implies #[trigger] list[i] == more[i - 1] by {}
    assert forall|i: int| 0 <= i < more.len() implies #[trigger] more[i] == list[i + 1] by {}
}

proof fn lemma_announced(e: Element, scan: Scan, suite: WifiAuthSuite)
    requires
        e.1.len() < 256,
        elements::element_scan(e.0, e.1) == Ok::<Scan, NetlinkError>(scan),
    ensures
        scan.suites.contains(suite) <==> announces(e, suite),
{
    lemma_element(e);
    if is_rsn(e) || is_wpa(e) {
        if scan.suites.contains(suite) {
            let k = choose|k: int| 0 <= k < scan.suites.len() && scan.suites[k] == suite;
            assert(is_suite(e, k, suite));
        }
        if announces(e, suite) {
            let k = choose|k: int|
                0 <= k < suite_count(body(e)) && #[trigger] is_suite(e, k, suite);
            assert(is_suite(e, k, scan.suites[k]));
            assert(scan.suites[k] == suite);
        }
    }
}

/// The security that is reported of a beacon is what its elements announce. It is an
/// error exactly when an RSN or a WPA element is cut off. Otherwise the reported
/// suites are those that some element lists; WPA is reported exactly when there is a
/// WPA element; WPA2 when there is an RSN element, next to a suite that is known and
/// older than WPA3; WPA3 and enterprise when a suite is one of theirs, whichever
/// element lists it; protected management frames when an RSN element tells of them;
/// and WEP when the privacy bit is set without either element.
pub proof fn lemma_security_is_what_is_announced(list: Seq<Element>, capability: Option<u16>)
    requires
        writable(list),
    ensures
        elements::scan_of(wire(list)) is Ok <==> forall|i: int|
            0 <= i < list.len() && (is_rsn(list[i]) || is_wpa(list[i])) ==> is_whole(
                body(#[trigger] list[i]),
            ),
        elements::scan_of(wire(list)) matches Ok(scan) ==> {
            let security = elements::security_of(scan, capability);
            let rsn = exists|i: int| 0 <= i < list.len() && is_rsn(#[trigger] list[i]);
            let wpa = exists|i: int| 0 <= i < list.len() && is_wpa(#[trigger] list[i]);
            let suites = security.auth_suites;
            &&& forall|suite: WifiAuthSuite| #[trigger]
                suites.contains(suite) <==> exists|i: int|
                    0 <= i < list.len() && announces(#[trigger] list[i], suite)
            &&& security.wpa1 <==> wpa
            &&& security.wpa2 <==> rsn && exists|i: int|
                0 <= i < suites.len() && (#[trigger] suites[i]) !is Other && suites[i] !is RsnSae
                    && suites[i] !is RsnSaeFt && suites[i] !is RsnOwe && suites[i] !is RsnPasn
            &&& security.wpa3 <==> exists|i: int|
                0 <= i < suites.len() && ((#[trigger] suites[i]) is RsnSae || suites[i] is RsnSaeFt
                    || suites[i] is RsnOwe || suites[i] is RsnPskSha384
                    || suites[i] is RsnFt8021xSha384 || suites[i] is RsnFtPskSha384
                    || suites[i] is RsnSuiteB192 || suites[i] is RsnPasn)
            &&& security.enterprise <==> exists|i: int|
                0 <= i < suites.len() && ((#[trigger] suites[i]) is Wpa18021x
                    || suites[i] is Rsn8021x || suites[i] is RsnFt8021x
                    || suites[i] is Rsn8021xSha256 || suites[i] is RsnFt8021xSha384
                    || suites[i] is RsnSuiteB || suites[i] is RsnSuiteB192)
            &&& security.management_frame_protection <==> exists|i: int|
                0 <= i < list.len() && is_rsn(#[trigger] list[i]) && protects(list[i].1)
            &&& security.wep <==> (capability matches Some(bits) && bits / 16 % 2 == 1) && !rsn
                && !wpa
        },
{
    lemma_scan(list);
    if let Ok(scan) = elements::scan_of(wire(list)) {
        lemma_kinds(scan, capability);
    }
}

/// For every reported security, enterprise, WPA3 and WPA2 follow from the reported
/// suites, whichever element announced them.
proof fn lemma_kinds(scan: Scan, capability: Option<u16>)
    ensures
        ({
            let security = elements::security_of(scan, capability);
            let suites = scan.suites;
            &&& security.auth_suites == suites
            &&& security.wpa2 <==> scan.rsn && exists|i: int|
                0 <= i < suites.len() && (#[trigger] suites[i]) !is Other && suites[i] !is RsnSae
                    && suites[i] !is RsnSaeFt && suites[i] !is RsnOwe && suites[i] !is RsnPasn
            &&& security.wpa3 <==> exists|i: int|
                0 <= i < suites.len() && ((#[trigger] suites[i]) is RsnSae || suites[i] is RsnSaeFt
                    || suites[i] is RsnOwe || suites[i] is RsnPskSha384
                    || suites[i] is RsnFt8021xSha384 || suites[i] is RsnFtPskSha384
                    || suites[i] is RsnSuiteB192 || suites[i] is RsnPasn)
            &&& security.enterprise <==> exists|i: int|
                0 <= i < suites.len() && ((#[trigger] suites[i]) is Wpa18021x
                    || suites[i] is Rsn8021x || suites[i] is RsnFt8021x
                    || suites[i] is Rsn8021xSha256 || suites[i] is RsnFt8021xSha384
                    || suites[i] is RsnSuiteB || suites[i] is RsnSuiteB192)
        }),
{
    let suites = scan.suites;
    let f2 = |s: WifiAuthSuite| s.wpa2();
    let f3 = |s: WifiAuthSuite| s.wpa3();
    let fe = |s: WifiAuthSuite| s.enterprise();
    assert(elements::some_suite(suites, f2) <==> exists|i: int|
        0 <= i < suites.len() && (#[trigger] suites[i]) !is Other && suites[i] !is RsnSae
            && suites[i] !is RsnSaeFt && suites[i] !is RsnOwe && suites[i] !is RsnPasn) by {
        assert(forall|i: int| 0 <= i < suites.len() ==> f2(suites[i]) == (#[trigger] suites[i]).wpa2());
    }
    assert(elements::some_suite(suites, f3) <==> exists|i: int|
        0 <= i < suites.len() && ((#[trigger] suites[i]) is RsnSae || suites[i] is RsnSaeFt
            || suites[i] is RsnOwe || suites[i] is RsnPskSha384 || suites[i] is RsnFt8021xSha384
            || suites[i] is RsnFtPskSha384 || suites[i] is RsnSuiteB192 || suites[i] is RsnPasn)) by {
        assert(forall|i: int| 0 <= i < suites.len() ==> f3(suites[i]) == (#[trigger] suites[i]).wpa3());
    }
    assert(elements::some_suite(suites, fe) <==> exists|i: int|
        0 <= i < suites.len() && ((#[trigger] suites[i]) is Wpa18021x || suites[i] is Rsn8021x
            || suites[i] is RsnFt8021x || suites[i] is Rsn8021xSha256
            || suites[i] is RsnFt8021xSha384 || suites[i] is RsnSuiteB
            || suites[i] is RsnSuiteB192)) by {
        assert(forall|i: int|
            0 <= i < suites.len() ==> fe(suites[i]) == (#[trigger] suites[i]).enterprise());
    }
}

/// The suites are reported in the order in which they are announced and as often: those
/// of a first element, and behind them those of the others. An element that is neither
/// an RSN nor a WPA one announces none.
pub proof fn lemma_suites_are_reported_in_order(
    list: Seq<Element>,
    capability: Option<u16>,
    i: int,
)
    requires
        writable(list),
        list.len() > 0,
        elements::scan_of(wire(list)) is Ok,
    ensures
        elements::scan_of(wire(list.skip(1))) matches Ok(rest) && {
            let suites = elements::security_of(
                elements::scan_of(wire(list))->Ok_0,
                capability,
            ).auth_suites;
            let more = elements::security_of(rest, capability).auth_suites;
            let n = if is_rsn(list[0]) || is_wpa(list[0]) {
                suite_count(body(list[0]))
            } else {
                0
            };
            &&& suites.len() == n + more.len()
            &&& 0 <= i < n ==> is_suite(list[0], i, suites[i])
            &&& n <= i < suites.len() ==> suites[i] == more[i - n]
        },
        elements::scan_of(wire(Seq::empty())) matches Ok(none) && none.suites.len() == 0,
{
    let ies = wire(list);
    let e = list[0];
    assert(e.1.len() < 256);
    lemma_element(e);
    let n = e.1.len() as int;
    assert(ies[0] == e.0 && ies[1] == n);
    assert(ies.subrange(2, 2 + n) =~= e.1);
    assert(ies.skip(2 + n) =~= wire(list.skip(1)));
    let first = elements::element_scan(e.0, e.1)->Ok_0;
    let rest = elements::scan_of(wire(list.skip(1)))->Ok_0;
    assert(elements::scan_of(ies)->Ok_0.suites == first.suites + rest.suites);
}

/// An RSN element that lists the number of an 802.1X suite makes a network an
/// enterprise one, whatever else is announced next to it.
pub proof fn lemma_rsn_8021x_is_enterprise(
    list: Seq<Element>,
    capability: Option<u16>,
    e: int,
    i: int,
)
    requires
        writable(list),
        elements::scan_of(wire(list)) is Ok,
        0 <= e < list.len(),
        is_rsn(list[e]),
        0 <= i < suite_count(list[e].1),
        number_at(list[e].1, first_suite(list[e].1) + 4 * i) == 0x000FAC01,
    ensures
        elements::security_of(elements::scan_of(wire(list))->Ok_0, capability).enterprise,
        elements::security_of(elements::scan_of(wire(list))->Ok_0, capability).wpa2,
{
    lemma_security_is_what_is_announced(list, capability);
    let security = elements::security_of(elements::scan_of(wire(list))->Ok_0, capability);
    lemma_rsn_numbers(0);
    let suite = WifiAuthSuite::Rsn8021x;
    assert(is_suite(list[e], i, suite));
    assert(announces(list[e], suite));
    assert(security.auth_suites.contains(suite));
    let k = choose|k: int|
        0 <= k < security.auth_suites.len() && security.auth_suites[k] == suite;
    assert(security.auth_suites[k] is Rsn8021x);
}

/// The name among elements is the data of the first element with the id of a name,
/// unless that is too long for a name; there is none without such an element.
pub proof fn lemma_name_is_first_name_element(list: Seq<Element>, k: int)
    requires
        writable(list),
        0 <= k <= list.len(),
        forall|i: int| 0 <= i < k ==> (#[trigger] list[i]).0 != 0,
        k < list.len() ==> list[k].0 == 0,
    ensures
        elements::name_in(wire(list)) == if k < list.len() && list[k].1.len() <= 32 {
            Some(list[k].1)
        } else {
            None
        },
    decreases list.len(),
{
    let ies = wire(list);
    if list.len() > 0 {
        let e = list[0];
        let more = list.skip(1);
        assert(e.1.len() < 256);
        let n = e.1.len() as int;
        assert(ies[0] == e.0 && ies[1] == n);
        assert(ies.subrange(2, 2 + n) =~= e.1);
        assert(ies.skip(2 + n) =~= wire(more));
        if k > 0 {
            assert(list[0].0 != 0);
            assert forall|i: int| 0 <= i < more.len() implies (#[trigger] more[i]).1.len() < 256 by {
                assert(more[i] == list[i + 1]);
            }
            assert forall|i: int| 0 <= i < k - 1 implies (#[trigger] more[i]).0 != 0 by {
                assert(more[i] == list[i + 1]);
            }
            lemma_name_is_first_name_element(more, k - 1);
        }
    }
}

// --- Entries ---------------------------------------------------------------------------

/// What is found of a type among attributes is the payload of the first attribute of
/// that type.
pub proof fn lemma_first_attribute_counts(attrs: Seq<AttrView>, typ: u16, k: int)
    requires
        0 <= k <= attrs.len(),
        forall|i: int| 0 <= i < k ==> (#[trigger] attrs[i]).typ != typ,
        k < attrs.len() ==> attrs[k].typ == typ,
    ensures
        genl::find(attrs, typ) == if k < attrs.len() {
            Some(attrs[k].payload)
        } else {
            None
        },
    decreases attrs.len(),
{
    if k > 0 {
        assert(attrs[0].typ != typ);
        let more = attrs.skip(1);
        assert forall|i: int| 0 <= i < k - 1 implies (#[trigger] more[i]).typ != typ by {
            assert(more[i] == attrs[i + 1]);
        }
        lemma_first_attribute_counts(more, typ, k - 1);
    }
}

/// Whether a 32-bit value is the one that an attribute holds; there is none without
/// the attribute.
pub open spec fn holds32(attrs: Seq<AttrView>, typ: u16, value: Option<u32>) -> bool {
    match genl::find(attrs, typ) {
        Some(octets) => octets.len() == 4 && value == Some(bytes::ne32(octets, 0) as u32),
        None => value is None,
    }
}

/// The access point that is reported of a scan entry holds what the entry says: each
/// value that of the attribute with its number, the signal in whole dBm, the channel
/// of its frequency, and the name outside of the entry before the one among its
/// elements.
pub proof fn lemma_entry_is_reported(attrs: Seq<AttrView>)
    ensures
        genl::find(attrs, 47) is None <==> nl80211::bss_of(attrs) == Ok::<
            Option<AccessPointView>,
            NetlinkError,
        >(None),
        nl80211::bss_of(attrs) matches Ok(Some(point)) ==> {
            let entry = genl::attrs_in(genl::find(attrs, 47)->0);
            let bss = entry->Ok_0;
            let elements = match genl::find(bss, 6) {
                Some(octets) => octets,
                None => match genl::find(bss, 11) {
                    Some(octets) => octets,
                    None => Seq::empty(),
                },
            };
            &&& entry is Ok
            &&& point.bssid == genl::find(bss, 1)
            &&& point.bssid matches Some(octets) ==> octets.len() == 6
            &&& holds32(bss, 2, point.frequency)
            &&& point.channel == match point.frequency {
                Some(mhz) => model::channel_of(mhz),
                None => None,
            }
            &&& match genl::find(bss, 5) {
                Some(octets) => octets.len() == 2 && point.capability == Some(
                    bytes::ne16(octets, 0) as u16,
                ),
                None => point.capability is None,
            }
            &&& match genl::find(bss, 7) {
                Some(octets) => {
                    let mbm = bytes::signed32(bytes::ne32(octets, 0));
                    &&& octets.len() == 4
                    &&& point.signal_dbm matches Some(dbm) && -100 < mbm - 100 * dbm < 100 && (mbm
                        >= 0 ==> 0 <= 100 * dbm <= mbm) && (mbm <= 0 ==> mbm <= 100 * dbm <= 0)
                },
                None => point.signal_dbm is None,
            }
            &&& match genl::find(bss, 8) {
                Some(octets) => octets.len() == 1 && point.signal_unspecified == Some(octets[0]),
                None => point.signal_unspecified is None,
            }
            &&& holds32(bss, 10, point.seen_millis_ago)
            &&& match genl::find(attrs, 52) {
                Some(octets) => octets.len() <= 32 && point.ssid == Some(octets),
                None => point.ssid == elements::name_in(elements),
            }
            &&& elements::scan_of(elements) matches Ok(scan) && point.security
                == elements::security_of(scan, point.capability)
        },
{
}

/// A channel is that of its centre frequency: five megahertz apart in each band, with
/// the last of the lowest band on its own. Other frequencies have none.
pub proof fn lemma_channels_of_frequencies(channel: u16, mhz: u32)
    ensures
        1 <= channel <= 13 ==> model::channel_of((2407 + 5 * channel) as u32) == Some(channel),
        model::channel_of(2484) == Some(14u16),
        channel <= 179 ==> model::channel_of((5000 + 5 * channel) as u32) == Some(channel),
        1 <= channel <= 233 ==> model::channel_of((5950 + 5 * channel) as u32) == Some(channel),
        model::channel_of(mhz) is Some <==> 2412 <= mhz <= 2472 || mhz == 2484 || 5000 <= mhz
            <= 5895 || 5955 <= mhz <= 7115,
{
}

/// A dump reports one access point for each of its messages of scan results that
/// holds an entry, in order, and nothing for other messages.
pub proof fn lemma_each_entry_is_reported(messages: Seq<MsgView>, message: MsgView)
    requires
        nl80211::points_of(messages) is Ok,
    ensures
        nl80211::points_of(Seq::empty()) == Ok::<Seq<AccessPointView>, NetlinkError>(Seq::empty()),
        ({
            let all = nl80211::points_of(seq![message] + messages);
            let found = nl80211::points_of(messages)->Ok_0;
            if message.cmd == Some(32u8) || message.cmd == Some(34u8) {
                match nl80211::bss_of(message.attrs) {
                    Err(e) => all == Err::<Seq<AccessPointView>, NetlinkError>(e),
                    Ok(Some(point)) => all matches Ok(points) && points.len() == 1 + found.len()
                        && points[0] == point && points.skip(1) == found,
                    Ok(None) => all == nl80211::points_of(messages),
                }
            } else {
                all == nl80211::points_of(messages)
            }
        }),
{
    let all = seq![message] + messages;
    assert(all.skip(1) =~= messages);
    assert(all[0] == message);
    let found = nl80211::points_of(messages)->Ok_0;
    if let Ok(Some(point)) = nl80211::bss_of(message.attrs) {
        assert((seq![point] + found).skip(1) =~= found);
    }
}

/// A scan event comes of the two commands that end a scan and names the interface.
pub proof fn lemma_scan_events(message: MsgView)
    ensures
        nl80211::scan_event_of(message) matches Ok(Some(event)) ==> {
            &&& message.cmd == Some(34u8) && event.kind == WifiEventKind::ScanResults || message.cmd
                == Some(35u8) && event.kind == WifiEventKind::ScanAborted
            &&& genl::find(message.attrs, 3) matches Some(octets) && octets.len() == 4
                && event.interface_index == bytes::signed32(bytes::ne32(octets, 0))
            &&& match genl::find(message.attrs, 38) {
                Some(octets) => octets.len() == 4 && event.frequency == if bytes::ne32(octets, 0)
                    == 0 {
                    None
                } else {
                    Some(bytes::ne32(octets, 0) as u32)
                },
                None => event.frequency is None,
            }
        },
        (message.cmd == Some(34u8) || message.cmd == Some(35u8)) && (genl::find(
            message.attrs,
            3,
        ) matches Some(octets) && octets.len() == 4) && (genl::find(message.attrs, 38) matches Some(
            octets,
        ) ==> octets.len() == 4) ==> nl80211::scan_event_of(message) matches Ok(Some(_)),
{
    if let Some(octets) = genl::find(message.attrs, 3) {
        if octets.len() == 4 {
            lemma_ne32_small(octets);
        }
    }
    if let Some(octets) = genl::find(message.attrs, 38) {
        if octets.len() == 4 {
            lemma_ne32_small(octets);
        }
    }
}

proof fn lemma_ne32_small(octets: Seq<u8>)
    requires
        octets.len() == 4,
    ensures
        0 <= bytes::ne32(octets, 0) < 0x1_0000_0000,
        -0x8000_0000 <= bytes::signed32(bytes::ne32(octets, 0)) < 0x8000_0000,
{
}

} // verus!
