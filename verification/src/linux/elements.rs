//! 802.11 information elements: network names and security suites.

use vstd::prelude::*;

use crate::bytes;
use crate::bytes::{read_le16, read_le32};
use crate::linux::model;
use crate::linux::model::{AccessPointSecurity, NetlinkError, SecurityView, Ssid, WifiAuthSuite};

verus! {

pub const IE_SSID: u8 = 0;

pub const IE_RSN: u8 = 48;

pub const IE_VENDOR: u8 = 221;

pub const WPA_OUI_TYPE: u8 = 1;

/// The error for an element that ends too early.
pub open spec fn bad_element() -> NetlinkError {
    NetlinkError::MalformedMessage("malformed information element")
}

// --- Suites -------------------------------------------------------------------------

/// Where the list of authentication suites of a security element starts: behind
/// a version, a group cipher, and a counted list of pairwise ciphers.
pub open spec fn suites_start(data: Seq<u8>) -> Option<nat> {
    if data.len() < 8 {
        None
    } else {
        let start = 8 + 4 * bytes::le16(data, 6);
        if data.len() < start + 2 {
            None
        } else {
            Some(start)
        }
    }
}

fn find_suites(data: &[u8]) -> (r: Option<usize>)
    ensures
        match r {
            Some(start) => suites_start(data@) == Some(start as nat),
            None => suites_start(data@) is None,
        },
{
    if data.len() < 8 {
        return None;
    }
    let start: usize = 8 + 4 * (read_le16(data, 6) as usize);
    if data.len() < start + 2 {
        return None;
    }
    Some(start)
}

/// The authentication suites and the protection of management frames that an
/// RSN element announces.
pub open spec fn rsn_of(data: Seq<u8>) -> Result<(Seq<WifiAuthSuite>, bool), NetlinkError> {
    match suites_start(data) {
        None => Err(bad_element()),
        Some(start) => {
            let count = bytes::le16(data, start as int);
            let end = start + 2 + 4 * count;
            if end > data.len() {
                Err(NetlinkError::MalformedMessage("malformed rsn ie"))
            } else {
                let protected = end + 2 <= data.len() && bytes::le16(data, end as int) / 64 % 4 != 0;
                Ok(
                    (
                        Seq::new(
                            count,
                            |i: int| WifiAuthSuite::of_rsn(bytes::le32(data, start + 2 + 4 * i) as u32),
                        ),
                        protected,
                    ),
                )
            }
        },
    }
}

/// Parses an RSN information element into auth suites and MFP support.
pub fn parse_rsn_ie(data: &[u8]) -> (r: Result<(Vec<WifiAuthSuite>, bool), NetlinkError>)
    ensures
        match r {
            Ok((suites, protected)) => rsn_of(data@) == Ok::<
                (Seq<WifiAuthSuite>, bool),
                NetlinkError,
            >((suites@, protected)),
            Err(e) => rsn_of(data@) == Err::<(Seq<WifiAuthSuite>, bool), NetlinkError>(e),
        },
{
    let start: usize = match find_suites(data) {
        None => {
            return Err(NetlinkError::MalformedMessage("malformed information element"));
        },
        Some(start) => start,
    };
    let count: usize = read_le16(data, start) as usize;
    assert(data@.len() == data.len());
    let room: usize = data.len() - start - 2;
    if 4 * count > room {
        return Err(NetlinkError::MalformedMessage("malformed rsn ie"));
    }
    let mut suites: Vec<WifiAuthSuite> = Vec::new();
    let mut i: usize = 0;
    while i < count
        invariant
            i <= count,
            count < 65536,
            start + 2 + 4 * count <= data@.len(),
            suites@.len() == i,
            forall|j: int|
                0 <= j < i ==> suites@[j] == WifiAuthSuite::of_rsn(
                    bytes::le32(data@, start + 2 + 4 * j) as u32,
                ),
        decreases count - i,
    {
        assert(data@.len() == data.len());
        suites.push(WifiAuthSuite::from_rsn_akm(read_le32(data, start + 2 + 4 * i)));
        i = i + 1;
    }
    let end: usize = start + 2 + 4 * count;
    let protected: bool = if data.len() - end >= 2 {
        read_le16(data, end) / 64 % 4 != 0
    } else {
        false
    };
    proof {
        assert(suites@ =~= Seq::new(
            count as nat,
            |i: int| WifiAuthSuite::of_rsn(bytes::le32(data@, start + 2 + 4 * i) as u32),
        ));
    }
    Ok((suites, protected))
}

/// The authentication suites that the body of a WPA vendor element announces.
pub open spec fn wpa_of(data: Seq<u8>) -> Result<Seq<WifiAuthSuite>, NetlinkError> {
    match suites_start(data) {
        None => Err(bad_element()),
        Some(start) => {
            let count = bytes::le16(data, start as int);
            if start + 2 + 4 * count > data.len() {
                Err(NetlinkError::MalformedMessage("malformed wpa ie"))
            } else {
                Ok(
                    Seq::new(
                        count,
                        |i: int| WifiAuthSuite::of_wpa(bytes::le32(data, start + 2 + 4 * i) as u32),
                    ),
                )
            }
        },
    }
}

/// Parses the body of a WPA vendor-specific information element.
pub fn parse_wpa_ie(data: &[u8]) -> (r: Result<Vec<WifiAuthSuite>, NetlinkError>)
    ensures
        match r {
            Ok(suites) => wpa_of(data@) == Ok::<Seq<WifiAuthSuite>, NetlinkError>(suites@),
            Err(e) => wpa_of(data@) == Err::<Seq<WifiAuthSuite>, NetlinkError>(e),
        },
{
    let start: usize = match find_suites(data) {
        None => {
            return Err(NetlinkError::MalformedMessage("malformed information element"));
        },
        Some(start) => start,
    };
    let count: usize = read_le16(data, start) as usize;
    assert(data@.len() == data.len());
    let room: usize = data.len() - start - 2;
    if 4 * count > room {
        return Err(NetlinkError::MalformedMessage("malformed wpa ie"));
    }
    let mut suites: Vec<WifiAuthSuite> = Vec::new();
    let mut i: usize = 0;
    while i < count
        invariant
            i <= count,
            count < 65536,
            start + 2 + 4 * count <= data@.len(),
            suites@.len() == i,
            forall|j: int|
                0 <= j < i ==> suites@[j] == WifiAuthSuite::of_wpa(
                    bytes::le32(data@, start + 2 + 4 * j) as u32,
                ),
        decreases count - i,
    {
        assert(data@.len() == data.len());
        suites.push(WifiAuthSuite::from_wpa(read_le32(data, start + 2 + 4 * i)));
        i = i + 1;
    }
    assert(suites@ =~= Seq::new(
        count as nat,
        |i: int| WifiAuthSuite::of_wpa(bytes::le32(data@, start + 2 + 4 * i) as u32),
    ));
    Ok(suites)
}

// --- Elements -------------------------------------------------------------------------

/// The data of the element at the start of a list, if there is a whole one.
pub open spec fn element_data(rest: Seq<u8>) -> Option<Seq<u8>> {
    if rest.len() < 2 || rest.len() < 2 + rest[1] {
        None
    } else {
        Some(rest.subrange(2, 2 + rest[1]))
    }
}

/// The network name among a list of elements: that of the first name element.
pub open spec fn name_in(rest: Seq<u8>) -> Option<Seq<u8>>
    decreases rest.len(),
{
    match element_data(rest) {
        None => None,
        Some(data) => if rest[0] == IE_SSID {
            if data.len() <= 32 {
                Some(data)
            } else {
                None
            }
        } else {
            name_in(rest.skip(2 + rest[1]))
        },
    }
}

/// Finds the network name among a list of elements.
pub fn ssid_from_ies(ies: &[u8]) -> (r: Option<Ssid>)
    ensures
        model::ssid_view(r) == name_in(ies@),
{
    let mut offset: usize = 0;
    assert(ies@.skip(0) =~= ies@);
    while ies.len() - offset >= 2
        invariant
            offset <= ies@.len(),
            ies@.len() == ies.len(),
            name_in(ies@) == name_in(ies@.skip(offset as int)),
        decreases ies@.len() - offset,
    {
        let ghost rest = ies@.skip(offset as int);
        let id: u8 = ies[offset];
        let len: usize = ies[offset + 1] as usize;
        assert(rest[0] == id && rest[1] == len);
        if ies.len() - offset - 2 < len {
            return None;
        }
        if id == IE_SSID {
            let data: &[u8] = vstd::slice::slice_subrange(ies, offset + 2, offset + 2 + len);
            assert(data@ =~= rest.subrange(2, 2 + len));
            return Ssid::from_bytes(data);
        }
        assert(rest.skip(2 + len) =~= ies@.skip(offset + 2 + len));
        offset = offset + 2 + len;
    }
    None
}

/// What was learnt from a list of elements.
#[verifier::ext_equal]
pub struct Scan {
    pub suites: Seq<WifiAuthSuite>,
    pub rsn: bool,
    pub wpa: bool,
    pub protected: bool,
}

impl Scan {
    /// Nothing was learnt.
    pub open spec fn nothing() -> Self {
        Scan { suites: Seq::empty(), rsn: false, wpa: false, protected: false }
    }

    /// What was learnt, and then more.
    pub open spec fn with(self, more: Scan) -> Self {
        Scan {
            suites: self.suites + more.suites,
            rsn: self.rsn || more.rsn,
            wpa: self.wpa || more.wpa,
            protected: self.protected || more.protected,
        }
    }
}

/// What one element says of the security of a network.
#[verifier::opaque]
pub open spec fn element_scan(id: u8, data: Seq<u8>) -> Result<Scan, NetlinkError> {
    if id == IE_RSN {
        match rsn_of(data) {
            Err(e) => Err(e),
            Ok((suites, protected)) => Ok(Scan { suites, rsn: true, wpa: false, protected }),
        }
    } else if id == IE_VENDOR && data.len() >= 4 && data.take(4) == seq![
        0x00u8,
        0x50u8,
        0xf2u8,
        WPA_OUI_TYPE,
    ] {
        match wpa_of(data.skip(4)) {
            Err(e) => Err(e),
            Ok(suites) => Ok(Scan { suites, rsn: false, wpa: true, protected: false }),
        }
    } else {
        Ok(Scan::nothing())
    }
}

/// What a list of elements says of the security of a network.
pub open spec fn scan_of(rest: Seq<u8>) -> Result<Scan, NetlinkError>
    decreases rest.len(),
{
    if rest.len() < 2 {
        Ok(Scan::nothing())
    } else {
        match element_data(rest) {
            None => Err(bad_element()),
            Some(data) => match element_scan(rest[0], data) {
                Err(e) => Err(e),
                Ok(first) => match scan_of(rest.skip(2 + rest[1])) {
                    Err(e) => Err(e),
                    Ok(more) => Ok(first.with(more)),
                },
            },
        }
    }
}

/// What was learnt, and then what a list of elements says.
spec fn followed_by(done: Scan, rest: Seq<u8>) -> Result<Scan, NetlinkError> {
    match scan_of(rest) {
        Ok(more) => Ok(done.with(more)),
        Err(e) => Err(e),
    }
}

proof fn lemma_followed_by(done: Scan, rest: Seq<u8>, first: Scan)
    requires
        rest.len() >= 2,
        element_data(rest) is Some,
        element_scan(rest[0], element_data(rest)->0) == Ok::<Scan, NetlinkError>(first),
    ensures
        followed_by(done, rest) == followed_by(done.with(first), rest.skip(2 + rest[1])),
{
    if let Ok(more) = scan_of(rest.skip(2 + rest[1])) {
        assert(done.with(first.with(more)) =~= done.with(first).with(more));
    }
}

/// Whether some suite of a list meets a condition.
pub open spec fn some_suite(suites: Seq<WifiAuthSuite>, f: spec_fn(WifiAuthSuite) -> bool) -> bool {
    exists|i: int| 0 <= i < suites.len() && f(#[trigger] suites[i])
}

/// The security that elements and the capability field of a beacon announce.
/// The privacy bit alone stands for WEP.
pub open spec fn security_of(scan: Scan, capability: Option<u16>) -> SecurityView {
    SecurityView {
        wep: match capability {
            Some(bits) => bits / 16 % 2 == 1,
            None => false,
        } && !scan.rsn && !scan.wpa,
        wpa1: scan.wpa,
        wpa2: scan.rsn && some_suite(scan.suites, |s: WifiAuthSuite| s.wpa2()),
        wpa3: some_suite(scan.suites, |s: WifiAuthSuite| s.wpa3()),
        enterprise: some_suite(scan.suites, |s: WifiAuthSuite| s.enterprise()),
        management_frame_protection: scan.protected,
        auth_suites: scan.suites,
    }
}

/// Reads what one element says of the security of a network.
fn read_element(
    id: u8,
    data: &[u8],
    suites: &mut Vec<WifiAuthSuite>,
    flags: &mut (bool, bool, bool),
) -> (r: Result<(), NetlinkError>)
    ensures
        match element_scan(id, data@) {
            Err(e) => r == Err::<(), NetlinkError>(e),
            Ok(scan) => {
                &&& r is Ok
                &&& final(suites)@ == old(suites)@ + scan.suites
                &&& *final(flags) == (
                    old(flags).0 || scan.rsn,
                    old(flags).1 || scan.wpa,
                    old(flags).2 || scan.protected,
                )
            },
        },
{
    reveal(element_scan);
    let ghost before = suites@;
    assert(before + Seq::<WifiAuthSuite>::empty() =~= before);
    if id == IE_RSN {
        match parse_rsn_ie(data) {
            Err(err) => Err(err),
            Ok((found, protected)) => {
                append_suites(suites, &found);
                *flags = (true, flags.1, flags.2 || protected);
                Ok(())
            },
        }
    } else if id == IE_VENDOR && data.len() >= 4 && data[0] == 0x00 && data[1] == 0x50 && data[2]
        == 0xf2 && data[3] == WPA_OUI_TYPE {
        assert(data@.take(4) =~= seq![0x00u8, 0x50u8, 0xf2u8, WPA_OUI_TYPE]);
        let body: &[u8] = vstd::slice::slice_subrange(data, 4, data.len());
        assert(body@ =~= data@.skip(4));
        match parse_wpa_ie(body) {
            Err(err) => Err(err),
            Ok(found) => {
                append_suites(suites, &found);
                *flags = (flags.0, true, flags.2);
                Ok(())
            },
        }
    } else {
        proof {
            if data@.len() >= 4 && data@.take(4) == seq![0x00u8, 0x50u8, 0xf2u8, WPA_OUI_TYPE] {
                assert(data@[0] == data@.take(4)[0]);
                assert(data@[1] == data@.take(4)[1]);
                assert(data@[2] == data@.take(4)[2]);
                assert(data@[3] == data@.take(4)[3]);
            }
        }
        Ok(())
    }
}

fn append_suites(out: &mut Vec<WifiAuthSuite>, more: &Vec<WifiAuthSuite>)
    ensures
        final(out)@ == old(out)@ + more@,
{
    let mut i: usize = 0;
    assert(out@ =~= old(out)@ + more@.take(0));
    while i < more.len()
        invariant
            i <= more@.len(),
            out@ == old(out)@ + more@.take(i as int),
        decreases more@.len() - i,
    {
        out.push(more[i]);
        i = i + 1;
        assert(out@ =~= old(out)@ + more@.take(i as int));
    }
    assert(more@.take(i as int) =~= more@);
}

/// Reads the security that elements and the capability field announce.
pub fn parse_security(ies: &[u8], capability: Option<u16>) -> (r: Result<
    AccessPointSecurity,
    NetlinkError,
>)
    ensures
        match r {
            Ok(security) => scan_of(ies@) is Ok && security@ == security_of(
                scan_of(ies@)->Ok_0,
                capability,
            ),
            Err(e) => scan_of(ies@) == Err::<Scan, NetlinkError>(e),
        },
{
    let mut suites: Vec<WifiAuthSuite> = Vec::new();
    let mut flags: (bool, bool, bool) = (false, false, false);
    let mut offset: usize = 0;
    proof {
        assert(ies@.skip(0) =~= ies@);
        if let Ok(scan) = scan_of(ies@) {
            assert(Scan::nothing().with(scan) =~= scan);
        }
    }
    while ies.len() - offset >= 2
        invariant
            offset <= ies@.len(),
            ies@.len() == ies.len(),
            scan_of(ies@) == followed_by(
                Scan { suites: suites@, rsn: flags.0, wpa: flags.1, protected: flags.2 },
                ies@.skip(offset as int),
            ),
        decreases ies@.len() - offset,
    {
        let ghost rest = ies@.skip(offset as int);
        let ghost done = Scan { suites: suites@, rsn: flags.0, wpa: flags.1, protected: flags.2 };
        let id: u8 = ies[offset];
        let len: usize = ies[offset + 1] as usize;
        assert(rest[0] == id && rest[1] == len);
        if ies.len() - offset - 2 < len {
            return Err(NetlinkError::MalformedMessage("malformed information element"));
        }
        let data: &[u8] = vstd::slice::slice_subrange(ies, offset + 2, offset + 2 + len);
        assert(data@ =~= rest.subrange(2, 2 + len));
        match read_element(id, data, &mut suites, &mut flags) {
            Err(err) => {
                return Err(err);
            },
            Ok(()) => {},
        }
        proof {
            let next = rest.skip(2 + len);
            assert(next =~= ies@.skip(offset + 2 + len));
            let first = element_scan(id, data@)->Ok_0;
            lemma_followed_by(done, rest, first);
        }
        offset = offset + 2 + len;
    }
    let ghost scan = Scan { suites: suites@, rsn: flags.0, wpa: flags.1, protected: flags.2 };
    assert(scan.with(Scan::nothing()) =~= scan);
    let mut wpa2: bool = false;
    let mut wpa3: bool = false;
    let mut enterprise: bool = false;
    let mut i: usize = 0;
    while i < suites.len()
        invariant
            i <= suites@.len(),
            wpa2 == exists|j: int| 0 <= j < i && (#[trigger] suites@[j]).wpa2(),
            wpa3 == exists|j: int| 0 <= j < i && (#[trigger] suites@[j]).wpa3(),
            enterprise == exists|j: int| 0 <= j < i && (#[trigger] suites@[j]).enterprise(),
        decreases suites@.len() - i,
    {
        let suite: WifiAuthSuite = suites[i];
        if suite.is_wpa2() {
            wpa2 = true;
        }
        if suite.is_wpa3() {
            wpa3 = true;
        }
        if suite.is_enterprise() {
            enterprise = true;
        }
        assert(suite == suites@[i as int]);
        i = i + 1;
    }
    let private: bool = match capability {
        Some(bits) => bits / 16 % 2 == 1,
        None => false,
    };
    proof {
        let f2 = |s: WifiAuthSuite| s.wpa2();
        let f3 = |s: WifiAuthSuite| s.wpa3();
        let fe = |s: WifiAuthSuite| s.enterprise();
        assert(some_suite(suites@, f2) == wpa2) by {
            assert(forall|j: int| 0 <= j < suites@.len() ==> f2(suites@[j]) == (
            #[trigger] suites@[j]).wpa2());
        }
        assert(some_suite(suites@, f3) == wpa3) by {
            assert(forall|j: int| 0 <= j < suites@.len() ==> f3(suites@[j]) == (
            #[trigger] suites@[j]).wpa3());
        }
        assert(some_suite(suites@, fe) == enterprise) by {
            assert(forall|j: int| 0 <= j < suites@.len() ==> fe(suites@[j]) == (
            #[trigger] suites@[j]).enterprise());
        }
    }
    Ok(
        AccessPointSecurity {
            wep: private && !flags.0 && !flags.1,
            wpa1: flags.1,
            wpa2: flags.0 && wpa2,
            wpa3,
            enterprise,
            management_frame_protection: flags.2,
            auth_suites: suites,
        },
    )
}

} // verus!
