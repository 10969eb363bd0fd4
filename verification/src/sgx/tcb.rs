//! The TCB (Trusted Computing Base) level of a platform: what a PCK certificate reports in
//! its SGX extension, held against the TCB info that is cached for the platform.

use crate::cbor::be_value;
use crate::serialization::read_be;
use crate::sgx::dcap::{TcbComponents, TcbInfo, TcbLevel};
use crate::text::chars_of;
use crate::types::{same_bytes, same_text};
use vstd::prelude::*;

verus! {

/// The DER tag of a SEQUENCE.
pub const DER_SEQUENCE: u8 = 0x30;

/// The DER tag of an OBJECT IDENTIFIER.
pub const DER_OID: u8 = 0x06;

/// The DER tag of an OCTET STRING.
pub const DER_OCTETS: u8 = 0x04;

/// The DER tag of an INTEGER.
pub const DER_INTEGER: u8 = 0x02;

/// The number of TCB components that a PCK certificate reports.
pub const TCB_COMPONENTS: usize = 16;

/// The length of an FMSPC.
pub const FMSPC_LEN: usize = 6;

/// The status of a TCB level that is accepted.
pub const TCB_UP_TO_DATE: &'static str = "UpToDate";

/// The object identifier of the SGX extension, 1.2.840.113741.1.13.1, as DER content.
pub open spec fn sgx_oid() -> Seq<u8> {
    seq![0x2au8, 0x86u8, 0x48u8, 0x86u8, 0xf8u8, 0x4du8, 0x01u8, 0x0du8, 0x01u8]
}

/// The object identifier of the member with the given number under the SGX extension.
pub open spec fn sgx_member_oid(number: u8) -> Seq<u8> {
    sgx_oid().push(number)
}

/// The object identifier of the TCB: member 2 of the SGX extension.
pub open spec fn tcb_oid() -> Seq<u8> {
    sgx_member_oid(2)
}

/// The object identifier of the FMSPC: member 4 of the SGX extension.
pub open spec fn fmspc_oid() -> Seq<u8> {
    sgx_member_oid(4)
}

/// The object identifier of a member of the TCB: the component SVNs are members 1 to 16,
/// the PCE SVN is member 17.
pub open spec fn tcb_member_oid(number: u8) -> Seq<u8> {
    tcb_oid().push(number)
}

/// The element with `count` content bytes from `start` on, whose tag stands at `pos`.
pub open spec fn der_content(bytes: Seq<u8>, pos: int, start: int, count: int) -> Option<
    (u8, int, int),
> {
    if start + count <= bytes.len() {
        Some((bytes[pos], start, start + count))
    } else {
        None
    }
}

/// The DER element at `pos`: its tag, and where its content starts and ends. Lengths of up
/// to two bytes are read.
pub open spec fn der_element(bytes: Seq<u8>, pos: int) -> Option<(u8, int, int)> {
    if pos < 0 || pos + 2 > bytes.len() {
        None
    } else if bytes[pos + 1] < 0x80 {
        der_content(bytes, pos, pos + 2, bytes[pos + 1] as int)
    } else if bytes[pos + 1] == 0x81 && pos + 3 <= bytes.len() {
        der_content(bytes, pos, pos + 3, bytes[pos + 2] as int)
    } else if bytes[pos + 1] == 0x82 && pos + 4 <= bytes.len() {
        der_content(bytes, pos, pos + 4, bytes[pos + 2] * 256 + bytes[pos + 3])
    } else {
        None
    }
}

/// The value that is filed under the object identifier `oid` in a list of members between
/// `from` and `to`: each member is a SEQUENCE of an object identifier and a value.
pub open spec fn der_member(bytes: Seq<u8>, from: int, to: int, oid: Seq<u8>) -> Option<
    (u8, int, int),
>
    decreases to - from,
{
    if from >= to {
        None
    } else {
        match der_element(bytes, from) {
            None => None,
            Some((tag, start, end)) => if tag != DER_SEQUENCE || end > to || end <= from {
                None
            } else {
                match der_element(bytes, start) {
                    None => None,
                    Some((name_tag, name_start, name_end)) => if name_tag != DER_OID || name_end
                        > end {
                        None
                    } else if bytes.subrange(name_start, name_end) == oid {
                        match der_element(bytes, name_end) {
                            None => None,
                            Some((value_tag, value_start, value_end)) => if value_end <= end {
                                Some((value_tag, value_start, value_end))
                            } else {
                                None
                            },
                        }
                    } else {
                        der_member(bytes, end, to, oid)
                    },
                }
            },
        }
    }
}

/// The unsigned integer of at most `max` that is filed under `oid`, if there is one.
pub open spec fn der_member_uint(bytes: Seq<u8>, from: int, to: int, oid: Seq<u8>, max: int) -> Option<
    int,
> {
    match der_member(bytes, from, to, oid) {
        None => None,
        Some((tag, start, end)) => if tag == DER_INTEGER && 1 <= end - start <= 3 && be_value(
            bytes.subrange(start, end),
        ) <= max {
            Some(be_value(bytes.subrange(start, end)) as int)
        } else {
            None
        },
    }
}

/// What a PCK certificate reports of its platform: the FMSPC, the security version numbers
/// of the 16 TCB components, and that of the PCE.
#[derive(Debug, Clone, PartialEq, Eq)]
pub struct PlatformTcb {
    pub fmspc: Vec<u8>,
    pub components: Vec<u8>,
    pub pce_svn: u16,
}

/// A platform's TCB as a mathematical value.
pub struct PlatformTcbView {
    pub fmspc: Seq<u8>,
    pub components: Seq<u8>,
    pub pce_svn: u16,
}

impl View for PlatformTcb {
    type V = PlatformTcbView;

    open spec fn view(&self) -> PlatformTcbView {
        PlatformTcbView {
            fmspc: self.fmspc@,
            components: self.components@,
            pce_svn: self.pce_svn,
        }
    }
}

/// The security version number of the TCB component with the given number, 1 to 16, in a
/// TCB that stands between `from` and `to`.
pub open spec fn reported_component(bytes: Seq<u8>, from: int, to: int, number: int) -> Option<
    int,
> {
    der_member_uint(bytes, from, to, tcb_member_oid(number as u8), 255)
}

/// The TCB that the value of an SGX extension reports: the extension is a SEQUENCE of
/// members, of which the FMSPC must be six octets and the TCB a SEQUENCE that holds the 16
/// component SVNs and the PCE SVN as integers.
pub open spec fn extension_tcb(ext: Seq<u8>) -> Option<PlatformTcbView> {
    match der_element(ext, 0) {
        None => None,
        Some((tag, start, end)) => if tag != DER_SEQUENCE {
            None
        } else {
            match (der_member(ext, start, end, fmspc_oid()), der_member(ext, start, end, tcb_oid())) {
                (Some((fmspc_tag, fmspc_start, fmspc_end)), Some((tcb_tag, from, to))) => {
                    if fmspc_tag != DER_OCTETS || fmspc_end - fmspc_start != FMSPC_LEN || tcb_tag
                        != DER_SEQUENCE {
                        None
                    } else if !(forall|n: int|
                        1 <= n <= TCB_COMPONENTS ==> (#[trigger] reported_component(
                            ext,
                            from,
                            to,
                            n,
                        )) is Some) {
                        None
                    } else {
                        match der_member_uint(ext, from, to, tcb_member_oid(17), 0xffff) {
                            None => None,
                            Some(pce_svn) => Some(
                                PlatformTcbView {
                                    fmspc: ext.subrange(fmspc_start, fmspc_end),
                                    components: Seq::new(
                                        TCB_COMPONENTS as nat,
                                        |i: int|
                                            reported_component(ext, from, to, i + 1).unwrap() as u8,
                                    ),
                                    pce_svn: pce_svn as u16,
                                },
                            ),
                        }
                    }
                },
                _ => None,
            }
        },
    }
}

/// What a reading of an element gives, with mathematical positions.
pub open spec fn positions(element: Option<(u8, usize, usize)>) -> Option<(u8, int, int)> {
    match element {
        Some((tag, start, end)) => Some((tag, start as int, end as int)),
        None => None,
    }
}

/// Read the DER element at `pos`: its tag, and where its content starts and ends.
pub fn read_element(bytes: &[u8], pos: usize) -> (element: Option<(u8, usize, usize)>)
    ensures
        positions(element) == der_element(bytes@, pos as int),
        element is Some ==> pos + 2 <= element.unwrap().1 <= element.unwrap().2 <= bytes.len(),
{
    if bytes.len() < 2 || pos > bytes.len() - 2 {
        return None;
    }
    let first = bytes[pos + 1];
    let (start, count): (usize, usize) = if first < 0x80 {
        (pos + 2, first as usize)
    } else if first == 0x81 && bytes.len() - pos >= 3 {
        (pos + 3, bytes[pos + 2] as usize)
    } else if first == 0x82 && bytes.len() - pos >= 4 {
        (pos + 4, bytes[pos + 2] as usize * 256 + bytes[pos + 3] as usize)
    } else {
        return None;
    };
    if count > bytes.len() - start {
        return None;
    }
    Some((bytes[pos], start, start + count))
}

/// Find the value that is filed under `oid` in the members between `from` and `to`.
pub fn find_member(bytes: &[u8], from: usize, to: usize, oid: &[u8]) -> (found: Option<
    (u8, usize, usize),
>)
    requires
        from <= to <= bytes.len(),
    ensures
        positions(found) == der_member(bytes@, from as int, to as int, oid@),
        found is Some ==> from <= found.unwrap().1 <= found.unwrap().2 <= to,
{
    let mut cur = from;
    while cur < to
        invariant
            from <= cur <= to <= bytes.len(),
            der_member(bytes@, from as int, to as int, oid@) == der_member(
                bytes@,
                cur as int,
                to as int,
                oid@,
            ),
        decreases to - cur,
    {
        let (tag, start, end) = match read_element(bytes, cur) {
            Some(element) => element,
            None => {
                return None;
            },
        };
        if tag != DER_SEQUENCE || end > to {
            return None;
        }
        let (name_tag, name_start, name_end) = match read_element(bytes, start) {
            Some(element) => element,
            None => {
                return None;
            },
        };
        if name_tag != DER_OID || name_end > end {
            return None;
        }
        if same_bytes(vstd::slice::slice_subrange(bytes, name_start, name_end), oid) {
            return match read_element(bytes, name_end) {
                Some((value_tag, value_start, value_end)) => if value_end <= end {
                    Some((value_tag, value_start, value_end))
                } else {
                    None
                },
                None => None,
            };
        }
        cur = end;
    }
    None
}

/// Find the unsigned integer of at most `max` that is filed under `oid`.
pub fn find_member_uint(bytes: &[u8], from: usize, to: usize, oid: &[u8], max: u32) -> (value:
    Option<u32>)
    requires
        from <= to <= bytes.len(),
    ensures
        value is Some <==> der_member_uint(bytes@, from as int, to as int, oid@, max as int)
            is Some,
        value is Some ==> der_member_uint(bytes@, from as int, to as int, oid@, max as int)
            == Some(value.unwrap() as int),
{
    match find_member(bytes, from, to, oid) {
        Some((tag, start, end)) => {
            if tag != DER_INTEGER || end - start < 1 || end - start > 3 {
                return None;
            }
            let value = read_be(bytes, start, end - start);
            proof {
                crate::cbor_laws::lemma_be_value_bound(bytes@.subrange(start as int, end as int));
                crate::cbor_laws::lemma_pow256_values();
            }
            if value > max as u64 {
                return None;
            }
            Some(value as u32)
        },
        None => None,
    }
}

fn sgx_oid_bytes() -> (oid: Vec<u8>)
    ensures
        oid@ == sgx_oid(),
{
    let mut oid: Vec<u8> = Vec::new();
    oid.push(0x2a);
    oid.push(0x86);
    oid.push(0x48);
    oid.push(0x86);
    oid.push(0xf8);
    oid.push(0x4d);
    oid.push(0x01);
    oid.push(0x0d);
    oid.push(0x01);
    assert(oid@ =~= sgx_oid());
    oid
}

fn with_number(oid: &Vec<u8>, number: u8) -> (longer: Vec<u8>)
    ensures
        longer@ == oid@.push(number),
{
    let mut longer = vstd::slice::slice_to_vec(oid.as_slice());
    longer.push(number);
    longer
}

/// The TCB that the value of an SGX extension reports, if it reports one.
#[verifier::loop_isolation(false)]
pub fn platform_tcb(ext: &[u8]) -> (tcb: Option<PlatformTcb>)
    ensures
        tcb is Some <==> extension_tcb(ext@) is Some,
        tcb is Some ==> extension_tcb(ext@) == Some(tcb.unwrap()@),
{
    let (tag, start, end) = match read_element(ext, 0) {
        Some(element) => element,
        None => {
            return None;
        },
    };
    if tag != DER_SEQUENCE {
        return None;
    }
    let sgx = sgx_oid_bytes();
    let fmspc_name = with_number(&sgx, 4);
    let tcb_name = with_number(&sgx, 2);
    let (fmspc_tag, fmspc_start, fmspc_end) = match find_member(ext, start, end, fmspc_name.as_slice()) {
        Some(element) => element,
        None => {
            return None;
        },
    };
    let (tcb_tag, from, to) = match find_member(ext, start, end, tcb_name.as_slice()) {
        Some(element) => element,
        None => {
            return None;
        },
    };
    if fmspc_tag != DER_OCTETS || fmspc_end - fmspc_start != FMSPC_LEN || tcb_tag != DER_SEQUENCE {
        return None;
    }
    let mut components: Vec<u8> = Vec::new();
    let mut n: u8 = 1;
    while n <= 16
        invariant
            1 <= n <= 17,
            from <= to <= ext.len(),
            tcb_name@ == tcb_oid(),
            components@.len() == n - 1,
            forall|k: int|
                1 <= k < n ==> (#[trigger] reported_component(ext@, from as int, to as int, k))
                    == Some(components@[k - 1] as int),
        decreases 17 - n,
    {
        let name = with_number(&tcb_name, n);
        match find_member_uint(ext, from, to, name.as_slice(), 255) {
            Some(svn) => {
                components.push(svn as u8);
            },
            None => {
                assert(reported_component(ext@, from as int, to as int, n as int) is None);
                return None;
            },
        }
        n += 1;
    }
    let pce_name = with_number(&tcb_name, 17);
    let pce_svn = match find_member_uint(ext, from, to, pce_name.as_slice(), 0xffff) {
        Some(svn) => svn as u16,
        None => {
            return None;
        },
    };
    let fmspc = vstd::slice::slice_to_vec(vstd::slice::slice_subrange(ext, fmspc_start, fmspc_end));
    proof {
        let reported = extension_tcb(ext@).unwrap();
        assert(reported.components =~= components@);
    }
    Some(PlatformTcb { fmspc, components, pce_svn })
}

/// The value of a hexadecimal digit, of either case.
pub open spec fn hex_value(c: char) -> Option<int> {
    if '0' <= c <= '9' {
        Some(c as int - '0' as int)
    } else if 'a' <= c <= 'f' {
        Some(c as int - 'a' as int + 10)
    } else if 'A' <= c <= 'F' {
        Some(c as int - 'A' as int + 10)
    } else {
        None
    }
}

/// Whether the digits at position `at` of a hexadecimal text spell the byte.
pub open spec fn spells_byte(text: Seq<char>, at: int, byte: u8) -> bool {
    hex_value(text[2 * at]) is Some && hex_value(text[2 * at + 1]) is Some && hex_value(
        text[2 * at],
    ).unwrap() * 16 + hex_value(text[2 * at + 1]).unwrap() == byte
}

/// Whether `text` spells `bytes` in hexadecimal, two digits of either case for each byte.
pub open spec fn hex_of(text: Seq<char>, bytes: Seq<u8>) -> bool {
    text.len() == 2 * bytes.len() && forall|i: int|
        0 <= i < bytes.len() ==> #[trigger] spells_byte(text, i, bytes[i])
}

fn digit_value(c: char) -> (value: Option<u8>)
    ensures
        value is Some <==> hex_value(c) is Some,
        value is Some ==> hex_value(c) == Some(value.unwrap() as int),
{
    let code = c as u32;
    if 0x30 <= code && code <= 0x39 {
        Some((code - 0x30) as u8)
    } else if 0x61 <= code && code <= 0x66 {
        Some((code - 0x61 + 10) as u8)
    } else if 0x41 <= code && code <= 0x46 {
        Some((code - 0x41 + 10) as u8)
    } else {
        None
    }
}

/// Whether `text` spells `bytes` in hexadecimal.
pub fn is_hex_of(text: &str, bytes: &[u8]) -> (spelled: bool)
    ensures
        spelled == hex_of(text@, bytes@),
{
    let chars = chars_of(text);
    if chars.len() % 2 != 0 || chars.len() / 2 != bytes.len() {
        return false;
    }
    let mut i: usize = 0;
    while i < bytes.len()
        invariant
            i <= bytes.len(),
            chars@ == text@,
            chars@.len() == 2 * bytes.len(),
            forall|j: int| 0 <= j < i ==> #[trigger] spells_byte(text@, j, bytes@[j]),
        decreases bytes.len() - i,
    {
        let spelled = match (digit_value(chars[2 * i]), digit_value(chars[2 * i + 1])) {
            (Some(high), Some(low)) => high * 16 + low == bytes[i],
            _ => false,
        };
        if !spelled {
            assert(!spells_byte(text@, i as int, bytes@[i as int]));
            return false;
        }
        i += 1;
    }
    true
}

/// The security version number that a TCB level asks of the component at position `at`,
/// 0 to 15.
pub open spec fn asked_component(asked: TcbComponents, at: int) -> u8 {
    if at == 0 {
        asked.sgxtcbcomp01svn
    } else if at == 1 {
        asked.sgxtcbcomp02svn
    } else if at == 2 {
        asked.sgxtcbcomp03svn
    } else if at == 3 {
        asked.sgxtcbcomp04svn
    } else if at == 4 {
        asked.sgxtcbcomp05svn
    } else if at == 5 {
        asked.sgxtcbcomp06svn
    } else if at == 6 {
        asked.sgxtcbcomp07svn
    } else if at == 7 {
        asked.sgxtcbcomp08svn
    } else if at == 8 {
        asked.sgxtcbcomp09svn
    } else if at == 9 {
        asked.sgxtcbcomp10svn
    } else if at == 10 {
        asked.sgxtcbcomp11svn
    } else if at == 11 {
        asked.sgxtcbcomp12svn
    } else if at == 12 {
        asked.sgxtcbcomp13svn
    } else if at == 13 {
        asked.sgxtcbcomp14svn
    } else if at == 14 {
        asked.sgxtcbcomp15svn
    } else {
        asked.sgxtcbcomp16svn
    }
}

fn component_at(asked: &TcbComponents, at: usize) -> (svn: u8)
    ensures
        svn == asked_component(*asked, at as int),
{
    if at == 0 {
        asked.sgxtcbcomp01svn
    } else if at == 1 {
        asked.sgxtcbcomp02svn
    } else if at == 2 {
        asked.sgxtcbcomp03svn
    } else if at == 3 {
        asked.sgxtcbcomp04svn
    } else if at == 4 {
        asked.sgxtcbcomp05svn
    } else if at == 5 {
        asked.sgxtcbcomp06svn
    } else if at == 6 {
        asked.sgxtcbcomp07svn
    } else if at == 7 {
        asked.sgxtcbcomp08svn
    } else if at == 8 {
        asked.sgxtcbcomp09svn
    } else if at == 9 {
        asked.sgxtcbcomp10svn
    } else if at == 10 {
        asked.sgxtcbcomp11svn
    } else if at == 11 {
        asked.sgxtcbcomp12svn
    } else if at == 12 {
        asked.sgxtcbcomp13svn
    } else if at == 13 {
        asked.sgxtcbcomp14svn
    } else if at == 14 {
        asked.sgxtcbcomp15svn
    } else {
        asked.sgxtcbcomp16svn
    }
}

/// Whether a platform reaches a TCB level: each of its 16 component SVNs and its PCE SVN
/// must be at least what the level asks.
pub open spec fn reaches_level(tcb: PlatformTcbView, level: TcbLevel) -> bool {
    &&& tcb.components.len() == TCB_COMPONENTS
    &&& tcb.pce_svn >= level.tcb.pcesvn
    &&& forall|i: int|
        0 <= i < TCB_COMPONENTS ==> tcb.components[i] >= #[trigger] asked_component(level.tcb, i)
}

/// The first level at or after `from` that the platform reaches; the number of levels if
/// it reaches none.
pub open spec fn first_level_reached(levels: Seq<TcbLevel>, tcb: PlatformTcbView, from: int) -> int
    decreases levels.len() - from,
{
    if from < 0 || from >= levels.len() {
        levels.len() as int
    } else if reaches_level(tcb, levels[from]) {
        from
    } else {
        first_level_reached(levels, tcb, from + 1)
    }
}

/// The first TCB info at or after `from` that is for the platform's FMSPC; the number of
/// infos if there is none.
pub open spec fn first_info_for(infos: Seq<TcbInfo>, fmspc: Seq<u8>, from: int) -> int
    decreases infos.len() - from,
{
    if from < 0 || from >= infos.len() {
        infos.len() as int
    } else if hex_of(infos[from].fmspc@, fmspc) {
        from
    } else {
        first_info_for(infos, fmspc, from + 1)
    }
}

/// The status of the platform's TCB level: that of the first level that the platform
/// reaches, in the first cached TCB info for its FMSPC; none if no info is cached for the
/// FMSPC or the platform reaches no level.
pub open spec fn tcb_status(infos: Seq<TcbInfo>, tcb: PlatformTcbView) -> Option<Seq<char>> {
    let at = first_info_for(infos, tcb.fmspc, 0);
    if 0 <= at < infos.len() {
        let level = first_level_reached(infos[at].tcb_levels@, tcb, 0);
        if 0 <= level < infos[at].tcb_levels@.len() {
            Some(infos[at].tcb_levels@[level].tcb_status@)
        } else {
            None
        }
    } else {
        None
    }
}

/// Whether the platform's TCB level is acceptable: its status must be known, and be
/// `UpToDate`.
pub open spec fn tcb_acceptable(infos: Seq<TcbInfo>, tcb: PlatformTcbView) -> bool {
    tcb_status(infos, tcb) == Some(TCB_UP_TO_DATE@)
}

/// Whether a platform reaches a TCB level.
pub fn is_level_reached(tcb: &PlatformTcb, level: &TcbLevel) -> (reached: bool)
    ensures
        reached == reaches_level(tcb@, *level),
{
    if tcb.components.len() != TCB_COMPONENTS || tcb.pce_svn < level.tcb.pcesvn {
        return false;
    }
    let mut i: usize = 0;
    while i < TCB_COMPONENTS
        invariant
            i <= TCB_COMPONENTS,
            tcb.components@.len() == TCB_COMPONENTS,
            forall|j: int| 0 <= j < i ==> tcb.components@[j] >= #[trigger] asked_component(level.tcb, j),
        decreases TCB_COMPONENTS - i,
    {
        if tcb.components[i] < component_at(&level.tcb, i) {
            assert(asked_component(level.tcb, i as int) > tcb.components@[i as int]);
            return false;
        }
        i += 1;
    }
    true
}

/// Whether the platform's TCB level is acceptable against the cached TCB info.
pub fn is_tcb_acceptable(infos: &Vec<TcbInfo>, tcb: &PlatformTcb) -> (acceptable: bool)
    ensures
        acceptable == tcb_acceptable(infos@, tcb@),
{
    let mut at: usize = 0;
    while at < infos.len() && !is_hex_of(infos[at].fmspc.as_str(), tcb.fmspc.as_slice())
        invariant
            at <= infos@.len(),
            first_info_for(infos@, tcb@.fmspc, 0) == first_info_for(infos@, tcb@.fmspc, at as int),
        decreases infos@.len() - at,
    {
        at += 1;
    }
    if at >= infos.len() {
        return false;
    }
    let levels = &infos[at].tcb_levels;
    let mut level: usize = 0;
    while level < levels.len() && !is_level_reached(tcb, &levels[level])
        invariant
            level <= levels@.len(),
            first_level_reached(levels@, tcb@, 0) == first_level_reached(
                levels@,
                tcb@,
                level as int,
            ),
        decreases levels@.len() - level,
    {
        level += 1;
    }
    if level >= levels.len() {
        return false;
    }
    same_text(levels[level].tcb_status.as_str(), TCB_UP_TO_DATE)
}

} // verus!
