//! Choosing the network interfaces to use.
//!
//! The operating system's list of interface addresses, and the two settings
//! that narrow it, come from the caller as plain values. This module decides
//! which interfaces remain, and computes the network block of each.

use vstd::prelude::*;
use vstd::slice::slice_subrange;
use vstd::string::StringExecFns;
use crate::addr::{prefix_len, spec_prefix_len, Cidr, HostAddr};

verus! {

/// The address family number of IPv4.
pub const AF_INET: i32 = 2;

/// The address family number of IPv6, as Linux has it.
pub const AF_INET6: i32 = 10;

/// The family setting that admits every family.
pub const ANY_FAMILY: i32 = -1;

/// An interface name is shorter than this many bytes.
pub const MAX_IF_NAME_SIZE: usize = 16;

/// The speed assumed for an interface that does not tell its own, in Mbit/s.
pub const DEFAULT_SPEED: i32 = 10000;

/// What the text of a number stands for, as `str::parse::<i32>` reads it.
pub uninterp spec fn spec_parse_i32(text: Seq<char>) -> Option<i32>;

/// A text without the white space at its two ends, as `str::trim` gives it.
pub uninterp spec fn spec_trimmed(text: Seq<char>) -> Seq<char>;

/// Calls `str::parse::<i32>`. Claimed: the result depends on the text alone.
/// `None` stands for any parse error.
#[verifier::external_body]
fn parse_i32(text: &str) -> (r: Option<i32>)
    ensures
        r == spec_parse_i32(text@),
{
    match text.parse::<i32>() {
        Ok(value) => Some(value),
        Err(_) => None,
    }
}

/// Calls `str::trim`. Claimed: the result depends on the text alone.
#[verifier::external_body]
fn trim(text: &str) -> (r: &str)
    ensures
        r@ == spec_trimmed(text@),
{
    text.trim()
}

/// The speed that a parsed value stands for: the value itself, or the default
/// where there is none.
pub fn speed_or_default(parsed: Option<i32>) -> (r: i32)
    ensures
        r == match parsed {
            Some(v) => v,
            None => DEFAULT_SPEED,
        },
{
    match parsed {
        Some(v) => v,
        None => DEFAULT_SPEED,
    }
}

/// The speed of an interface, given the content of its speed file, or `None`
/// where the file could not be read.
pub open spec fn spec_net_if_speed(content: Option<Seq<char>>) -> i32 {
    match content {
        Some(text) => match spec_parse_i32(spec_trimmed(text)) {
            Some(v) => v,
            None => DEFAULT_SPEED,
        },
        None => DEFAULT_SPEED,
    }
}

/// The file that holds the speed of the interface `device`.
pub fn speed_path(device: &str) -> (r: String)
    ensures
        r@ == "/sys/class/net/"@ + device@ + "/speed"@,
{
    String::from_str("/sys/class/net/").concat(device).concat("/speed")
}

/// The directory whose canonical path identifies the hardware behind the
/// interface `device`.
pub fn device_path(device: &str) -> (r: String)
    ensures
        r@ == "/sys/class/net/"@ + device@ + "/device"@,
{
    String::from_str("/sys/class/net/").concat(device).concat("/device")
}

/// The speed of an interface in Mbit/s, from the content of its speed file:
/// the number that the content holds between white space, and the default of
/// 10 Gbit/s where the file could not be read or holds no number.
pub fn get_net_if_speed(content: Option<&str>) -> (r: i32)
    ensures
        r == spec_net_if_speed(
            match content {
                Some(text) => Some(text@),
                None => None,
            },
        ),
{
    match content {
        Some(text) => speed_or_default(parse_i32(trim(text))),
        None => DEFAULT_SPEED,
    }
}

/// The family that a setting's text asks for: its number, and every family
/// where the setting is absent or is no number.
pub open spec fn spec_socket_family(setting: Option<Seq<char>>) -> i32 {
    match setting {
        Some(text) => match spec_parse_i32(text) {
            Some(v) => v,
            None => ANY_FAMILY,
        },
        None => ANY_FAMILY,
    }
}

/// The family that a parsed setting asks for.
pub fn family_or_any(parsed: Option<i32>) -> (r: i32)
    ensures
        r == match parsed {
            Some(v) => v,
            None => ANY_FAMILY,
        },
{
    match parsed {
        Some(v) => v,
        None => ANY_FAMILY,
    }
}

/// The address family that the family setting asks for.
pub fn socket_family(setting: Option<&str>) -> (r: i32)
    ensures
        r == spec_socket_family(
            match setting {
                Some(text) => Some(text@),
                None => None,
            },
        ),
{
    match setting {
        Some(text) => family_or_any(parse_i32(text)),
        None => ANY_FAMILY,
    }
}

/// The views of the byte strings of `pieces`.
pub open spec fn spec_views(pieces: Seq<Vec<u8>>) -> Seq<Seq<u8>> {
    Seq::new(pieces.len(), |i: int| pieces[i]@)
}

/// The pieces of `text` between occurrences of `sep`. There is always at
/// least one piece; a separator at either end leaves an empty piece there.
pub open spec fn spec_split(text: Seq<u8>, sep: u8) -> Seq<Seq<u8>>
    decreases text.len(),
{
    if text.len() == 0 {
        seq![Seq::<u8>::empty()]
    } else {
        let before = spec_split(text.drop_last(), sep);
        if text.last() == sep {
            before.push(Seq::<u8>::empty())
        } else {
            before.drop_last().push(before.last().push(text.last()))
        }
    }
}

/// Splitting gives at least one piece.
pub proof fn lemma_split_nonempty(text: Seq<u8>, sep: u8)
    ensures
        spec_split(text, sep).len() >= 1,
    decreases text.len(),
{
    if text.len() > 0 {
        lemma_split_nonempty(text.drop_last(), sep);
    }
}

/// `pieces` put together again, with `sep` between each two.
pub open spec fn spec_join(pieces: Seq<Seq<u8>>, sep: u8) -> Seq<u8>
    decreases pieces.len(),
{
    if pieces.len() == 0 {
        Seq::empty()
    } else if pieces.len() == 1 {
        pieces[0]
    } else {
        spec_join(pieces.drop_last(), sep) + seq![sep] + pieces.last()
    }
}

/// The pieces of a text hold no separator, and joined with the separator
/// they give the text back.
pub proof fn lemma_split_joins(text: Seq<u8>, sep: u8)
    ensures
        spec_join(spec_split(text, sep), sep) == text,
        forall|k: int, j: int|
            0 <= k < spec_split(text, sep).len() && 0 <= j < spec_split(text, sep)[k].len()
                ==> spec_split(text, sep)[k][j] != sep,
    decreases text.len(),
{
    let pieces = spec_split(text, sep);
    if text.len() == 0 {
        assert(pieces.len() == 1);
        assert(spec_join(pieces, sep) =~= text);
    } else {
        let front = text.drop_last();
        let before = spec_split(front, sep);
        lemma_split_joins(front, sep);
        lemma_split_nonempty(front, sep);
        if text.last() == sep {
            assert(pieces.drop_last() =~= before);
            assert(spec_join(pieces, sep) =~= text);
        } else {
            let grown = before.last().push(text.last());
            assert(pieces.last() == grown);
            if before.len() == 1 {
                assert(spec_join(pieces, sep) =~= text);
            } else {
                assert(pieces.drop_last() =~= before.drop_last());
                assert(spec_join(pieces, sep) =~= spec_join(before, sep).push(text.last()));
                assert(spec_join(pieces, sep) =~= text);
            }
            assert forall|k: int, j: int|
                0 <= k < pieces.len() && 0 <= j < pieces[k].len() implies pieces[k][j]
                != sep by {
                if k < pieces.len() - 1 {
                    assert(pieces[k] == before[k]);
                } else if j < before.last().len() {
                    assert(pieces[k][j] == before.last()[j]);
                }
            }
        }
    }
}

/// Splits `text` at each occurrence of `sep`.
pub fn split(text: &[u8], sep: u8) -> (r: Vec<Vec<u8>>)
    ensures
        spec_views(r@) == spec_split(text@, sep),
{
    let mut pieces: Vec<Vec<u8>> = Vec::new();
    let mut current: Vec<u8> = Vec::new();
    let mut i: usize = 0;
    assert(text@.take(0) =~= Seq::<u8>::empty());
    assert(spec_views(pieces@).push(current@) =~= seq![Seq::<u8>::empty()]);
    while i < text.len()
        invariant
            i <= text@.len(),
            spec_views(pieces@).push(current@) == spec_split(text@.take(i as int), sep),
        decreases text@.len() - i,
    {
        let ghost front = text@.take(i as int);
        let ghost next = text@.take(i + 1);
        let ghost old_pieces = spec_views(pieces@);
        let ghost old_current = current@;
        assert(next.drop_last() =~= front);
        assert(next.last() == text@[i as int]);
        let b = text[i];
        if b == sep {
            pieces.push(current);
            current = Vec::new();
            assert(spec_views(pieces@) =~= old_pieces.push(old_current));
        } else {
            current.push(b);
            assert(old_pieces.push(old_current).drop_last() =~= old_pieces);
        }
        i = i + 1;
    }
    assert(text@.take(i as int) =~= text@);
    let ghost old_pieces = spec_views(pieces@);
    pieces.push(current);
    assert(spec_views(pieces@) =~= old_pieces.push(current@));
    pieces
}

/// The byte that opens a list of names to leave out.
pub const DENY_MARK: u8 = 94;

/// The byte that may open a list of names to keep.
pub const ALLOW_MARK: u8 = 61;

/// The byte between two names of a list.
pub const LIST_SEPARATOR: u8 = 44;

/// Which interface names to leave out and which to keep, each list a list of
/// prefixes.
#[derive(Debug, Clone, PartialEq, Eq)]
pub struct IfnameFilter {
    /// An interface whose name starts with one of these is left out.
    pub deny: Vec<Vec<u8>>,
    /// Unless this list is empty, only an interface whose name starts with
    /// one of these is kept.
    pub allow: Vec<Vec<u8>>,
}

/// A filter as two sequences of byte strings.
pub ghost struct IfnameFilterView {
    pub deny: Seq<Seq<u8>>,
    pub allow: Seq<Seq<u8>>,
}

impl View for IfnameFilter {
    type V = IfnameFilterView;

    open spec fn view(&self) -> IfnameFilterView {
        IfnameFilterView {
            deny: spec_views(self.deny@),
            allow: spec_views(self.allow@),
        }
    }
}

/// The filter that a setting's bytes stand for. After a leading `^` come the
/// prefixes to leave out; after a leading `=`, or with neither, the prefixes
/// to keep. The prefixes are separated by commas.
pub open spec fn spec_ifname_filter(setting: Seq<u8>) -> IfnameFilterView {
    if setting.len() > 0 && setting[0] == DENY_MARK {
        IfnameFilterView {
            deny: spec_split(setting.subrange(1, setting.len() as int), LIST_SEPARATOR),
            allow: Seq::empty(),
        }
    } else if setting.len() > 0 && setting[0] == ALLOW_MARK {
        IfnameFilterView {
            deny: Seq::empty(),
            allow: spec_split(setting.subrange(1, setting.len() as int), LIST_SEPARATOR),
        }
    } else {
        IfnameFilterView { deny: Seq::empty(), allow: spec_split(setting, LIST_SEPARATOR) }
    }
}

/// The filter in force where the setting is absent: it leaves out the
/// interfaces whose names start with `docker` or with `lo`.
pub open spec fn spec_default_filter() -> IfnameFilterView {
    IfnameFilterView {
        deny: seq![seq![100u8, 111u8, 99u8, 107u8, 101u8, 114u8], seq![108u8, 111u8]],
        allow: Seq::empty(),
    }
}

/// Reads the filter that the bytes of a setting stand for.
pub fn parse_ifname_filter(setting: &[u8]) -> (r: IfnameFilter)
    ensures
        r@ == spec_ifname_filter(setting@),
{
    let r = if setting.len() > 0 && setting[0] == DENY_MARK {
        IfnameFilter {
            deny: split(slice_subrange(setting, 1, setting.len()), LIST_SEPARATOR),
            allow: Vec::new(),
        }
    } else if setting.len() > 0 && setting[0] == ALLOW_MARK {
        IfnameFilter {
            deny: Vec::new(),
            allow: split(slice_subrange(setting, 1, setting.len()), LIST_SEPARATOR),
        }
    } else {
        IfnameFilter { deny: Vec::new(), allow: split(setting, LIST_SEPARATOR) }
    };
    assert(r@.deny =~= spec_ifname_filter(setting@).deny);
    assert(r@.allow =~= spec_ifname_filter(setting@).allow);
    r
}

/// The filter in force where the setting is absent.
pub fn default_ifname_filter() -> (r: IfnameFilter)
    ensures
        r@ == spec_default_filter(),
{
    let docker: Vec<u8> = vec![100u8, 111u8, 99u8, 107u8, 101u8, 114u8];
    let lo: Vec<u8> = vec![108u8, 111u8];
    let mut deny: Vec<Vec<u8>> = Vec::new();
    deny.push(docker);
    deny.push(lo);
    let r = IfnameFilter { deny, allow: Vec::new() };
    assert(r@.deny =~= spec_default_filter().deny);
    assert(r@.allow =~= spec_default_filter().allow);
    r
}

/// Whether `name` starts with `prefix`.
pub fn starts_with(name: &[u8], prefix: &[u8]) -> (r: bool)
    ensures
        r == prefix@.is_prefix_of(name@),
{
    if prefix.len() > name.len() {
        return false;
    }
    let mut i: usize = 0;
    while i < prefix.len()
        invariant
            i <= prefix@.len() <= name@.len(),
            forall|j: int| 0 <= j < i ==> prefix@[j] == name@[j],
        decreases prefix@.len() - i,
    {
        if prefix[i] != name[i] {
            assert(!prefix@.is_prefix_of(name@)) by {
                if prefix@.is_prefix_of(name@) {
                    assert(name@.subrange(0, prefix@.len() as int)[i as int] == prefix@[i as int]);
                }
            }
            return false;
        }
        i = i + 1;
    }
    assert(name@.subrange(0, prefix@.len() as int) =~= prefix@);
    true
}

/// Whether `name` starts with one of `prefixes`.
pub open spec fn spec_has_prefix_in(name: Seq<u8>, prefixes: Seq<Seq<u8>>) -> bool {
    exists|k: int| 0 <= k < prefixes.len() && (#[trigger] prefixes[k]).is_prefix_of(name)
}

/// Whether `name` starts with one of `prefixes`. The empty prefix matches
/// every name.
pub fn has_prefix_in(name: &[u8], prefixes: &Vec<Vec<u8>>) -> (r: bool)
    ensures
        r == spec_has_prefix_in(name@, spec_views(prefixes@)),
{
    let mut k: usize = 0;
    while k < prefixes.len()
        invariant
            k <= prefixes@.len(),
            forall|j: int| 0 <= j < k ==> !(#[trigger] spec_views(prefixes@)[j]).is_prefix_of(name@),
        decreases prefixes@.len() - k,
    {
        if starts_with(name, prefixes[k].as_slice()) {
            assert(spec_views(prefixes@)[k as int].is_prefix_of(name@));
            return true;
        }
        k = k + 1;
    }
    false
}

/// Whether the settings admit an interface called `name` whose address has
/// the family number `family`: the family is the one asked for, if one is;
/// the name starts with none of the prefixes to leave out; and, where there
/// are prefixes to keep, with one of them.
pub open spec fn spec_admits(
    wanted_family: i32,
    filter: IfnameFilterView,
    family: i32,
    name: Seq<u8>,
) -> bool {
    &&& wanted_family == ANY_FAMILY || family == wanted_family
    &&& !spec_has_prefix_in(name, filter.deny)
    &&& filter.allow.len() == 0 || spec_has_prefix_in(name, filter.allow)
}

/// Whether the settings admit an interface called `name` whose address has
/// the family number `family`.
pub fn admits(wanted_family: i32, filter: &IfnameFilter, family: i32, name: &[u8]) -> (r: bool)
    ensures
        r == spec_admits(wanted_family, filter@, family, name@),
{
    if wanted_family != ANY_FAMILY && family != wanted_family {
        return false;
    }
    if has_prefix_in(name, &filter.deny) {
        return false;
    }
    if filter.allow.len() != 0 && !has_prefix_in(name, &filter.allow) {
        return false;
    }
    true
}

/// A socket address as the operating system reports it for an interface.
#[derive(Debug, Clone, Copy, PartialEq, Eq, Structural)]
pub enum SockAddr {
    /// An IPv4 or IPv6 address.
    Inet(HostAddr),
    /// An address of any other family.
    Other,
}

/// One entry of the operating system's list of interface addresses.
#[derive(Debug, Clone, PartialEq, Eq)]
pub struct InterfaceAddress {
    pub interface_name: String,
    /// Whether the interface is a loopback interface.
    pub loopback: bool,
    pub address: Option<SockAddr>,
    pub netmask: Option<SockAddr>,
    /// The canonical path of the interface's device, or the empty string.
    pub pci_path: String,
}

/// An interface that was chosen.
#[derive(Debug, Clone, PartialEq, Eq)]
pub struct NCCLSocketDev {
    pub interface_name: String,
    pub addr: HostAddr,
    pub pci_path: String,
    pub ip_cidr: Cidr,
}

/// A chosen interface as plain values.
pub ghost struct SocketDevView {
    pub interface_name: Seq<char>,
    pub addr: HostAddr,
    pub pci_path: Seq<char>,
    pub ip_cidr: Cidr,
}

impl View for NCCLSocketDev {
    type V = SocketDevView;

    open spec fn view(&self) -> SocketDevView {
        SocketDevView {
            interface_name: self.interface_name@,
            addr: self.addr,
            pci_path: self.pci_path@,
            ip_cidr: self.ip_cidr,
        }
    }
}

/// What is wrong with an entry of the list.
#[derive(Debug, Clone, Copy, PartialEq, Eq, Structural)]
pub enum InterfaceFault {
    /// The name is not shorter than `MAX_IF_NAME_SIZE` bytes.
    NameTooLong,
    /// The entry has no IP netmask, or one with more bits set than its
    /// address has.
    NoNetwork,
}

/// The first entry of the list that is at fault.
#[derive(Debug, Clone, Copy, PartialEq, Eq, Structural)]
pub struct InterfaceError {
    /// Position of the entry in the list.
    pub index: usize,
    pub fault: InterfaceFault,
}

/// The IP address of an entry, if it has one.
pub open spec fn spec_inet(entry: InterfaceAddress) -> Option<HostAddr> {
    match entry.address {
        Some(SockAddr::Inet(a)) => Some(a),
        _ => None,
    }
}

/// Whether an entry is looked at: it has an IP address and is no loopback.
pub open spec fn spec_eligible(entry: InterfaceAddress) -> bool {
    spec_inet(entry) is Some && !entry.loopback
}

/// The family number of an address.
pub open spec fn spec_family(addr: HostAddr) -> i32 {
    match addr {
        HostAddr::V4(_) => AF_INET,
        HostAddr::V6(_) => AF_INET6,
    }
}

/// The network block of an entry: its address, with as many prefix bits as
/// its netmask has bits set. `None` where the address or the netmask is no IP
/// address, or where the netmask has more bits set than the address has.
pub open spec fn spec_cidr_of(entry: InterfaceAddress) -> Option<Cidr> {
    match (entry.address, entry.netmask) {
        (Some(SockAddr::Inet(a)), Some(SockAddr::Inet(m))) => if spec_prefix_len(m)
            <= a.spec_bits() {
            Some(Cidr { address: a, prefix_len: spec_prefix_len(m) as u8 })
        } else {
            None
        },
        _ => None,
    }
}

/// The bytes of a name.
pub open spec fn spec_name_bytes(name: Seq<char>) -> Seq<u8> {
    vstd::utf8::encode_utf8(name)
}

/// Whether entry `i` is the first entry of its interface that is looked at.
pub open spec fn spec_first_of_name(addrs: Seq<InterfaceAddress>, i: int) -> bool {
    forall|j: int|
        0 <= j < i && spec_eligible(#[trigger] addrs[j]) ==> addrs[j].interface_name@
            != addrs[i].interface_name@
}

/// What is wrong with entry `i`, if anything. Only entries that are looked at
/// can be at fault, and the network block is asked of the first entry of an
/// interface only.
pub open spec fn spec_fault(addrs: Seq<InterfaceAddress>, i: int) -> Option<InterfaceFault> {
    if !spec_eligible(addrs[i]) {
        None
    } else if spec_name_bytes(addrs[i].interface_name@).len() >= MAX_IF_NAME_SIZE {
        Some(InterfaceFault::NameTooLong)
    } else if spec_first_of_name(addrs, i) && spec_cidr_of(addrs[i]) is None {
        Some(InterfaceFault::NoNetwork)
    } else {
        None
    }
}

/// Whether entry `i` is chosen: it is looked at, it is the first such entry
/// of its interface, it has a network block, and the settings admit it.
pub open spec fn spec_chosen(
    addrs: Seq<InterfaceAddress>,
    i: int,
    wanted_family: i32,
    filter: IfnameFilterView,
) -> bool {
    &&& spec_eligible(addrs[i])
    &&& spec_first_of_name(addrs, i)
    &&& spec_cidr_of(addrs[i]) is Some
    &&& spec_admits(
        wanted_family,
        filter,
        spec_family(spec_inet(addrs[i])->Some_0),
        spec_name_bytes(addrs[i].interface_name@),
    )
}

/// The chosen interface that an entry gives.
pub open spec fn spec_dev_of(entry: InterfaceAddress) -> SocketDevView {
    SocketDevView {
        interface_name: entry.interface_name@,
        addr: spec_inet(entry)->Some_0,
        pci_path: entry.pci_path@,
        ip_cidr: spec_cidr_of(entry)->Some_0,
    }
}

/// The interfaces chosen among the first `n` entries, in the order of the
/// list.
pub open spec fn spec_selected(
    addrs: Seq<InterfaceAddress>,
    n: int,
    wanted_family: i32,
    filter: IfnameFilterView,
) -> Seq<SocketDevView>
    decreases n,
{
    if n <= 0 {
        Seq::empty()
    } else {
        let before = spec_selected(addrs, n - 1, wanted_family, filter);
        if spec_chosen(addrs, n - 1, wanted_family, filter) {
            before.push(spec_dev_of(addrs[n - 1]))
        } else {
            before
        }
    }
}

/// The views of the interfaces of `devs`.
pub open spec fn spec_dev_views(devs: Seq<NCCLSocketDev>) -> Seq<SocketDevView> {
    Seq::new(devs.len(), |i: int| devs[i]@)
}

/// What choosing among `addrs` gives: the first fault, if an entry is at
/// fault, and the chosen interfaces otherwise.
pub open spec fn spec_selection_is(
    addrs: Seq<InterfaceAddress>,
    wanted_family: i32,
    filter: IfnameFilterView,
    r: Result<Vec<NCCLSocketDev>, InterfaceError>,
) -> bool {
    match r {
        Ok(devs) => {
            &&& forall|i: int| 0 <= i < addrs.len() ==> spec_fault(addrs, i) is None
            &&& spec_dev_views(devs@) == spec_selected(
                addrs,
                addrs.len() as int,
                wanted_family,
                filter,
            )
        },
        Err(e) => {
            &&& e.index < addrs.len()
            &&& spec_fault(addrs, e.index as int) == Some(e.fault)
            &&& forall|j: int| 0 <= j < e.index ==> spec_fault(addrs, j) is None
        },
    }
}

/// The network block of an interface address.
pub fn nix_if_addr_to_cidr(if_addr: &InterfaceAddress) -> (r: Option<Cidr>)
    ensures
        r == spec_cidr_of(*if_addr),
        r is Some ==> r->Some_0.wf(),
{
    match (if_addr.address, if_addr.netmask) {
        (Some(SockAddr::Inet(a)), Some(SockAddr::Inet(m))) => Cidr::new(a, prefix_len(m)),
        _ => None,
    }
}

/// Whether an entry before entry `i` is looked at and has the same name.
pub fn seen_before(addrs: &Vec<InterfaceAddress>, i: usize) -> (r: bool)
    requires
        i < addrs@.len(),
    ensures
        r == !spec_first_of_name(addrs@, i as int),
{
    let mut j: usize = 0;
    while j < i
        invariant
            j <= i < addrs@.len(),
            forall|k: int|
                0 <= k < j && spec_eligible(#[trigger] addrs@[k]) ==> addrs@[k].interface_name@
                    != addrs@[i as int].interface_name@,
        decreases i - j,
    {
        let entry = &addrs[j];
        let looked_at = match entry.address {
            Some(SockAddr::Inet(_)) => !entry.loopback,
            _ => false,
        };
        if looked_at && entry.interface_name == addrs[i].interface_name {
            return true;
        }
        j = j + 1;
    }
    false
}

/// Chooses interfaces from the operating system's list.
///
/// Entries without an IP address and loopback entries are passed over. Of
/// each interface the first remaining entry counts. It is chosen if the
/// settings admit it: `wanted_family` names the family to keep, or admits
/// all; `filter` names the prefixes to leave out and to keep.
pub fn select_interfaces(
    wanted_family: i32,
    filter: &IfnameFilter,
    addrs: &Vec<InterfaceAddress>,
) -> (r: Result<Vec<NCCLSocketDev>, InterfaceError>)
    ensures
        spec_selection_is(addrs@, wanted_family, filter@, r),
{
    let mut devs: Vec<NCCLSocketDev> = Vec::new();
    let mut i: usize = 0;
    assert(spec_dev_views(devs@) =~= Seq::<SocketDevView>::empty());
    while i < addrs.len()
        invariant
            i <= addrs@.len(),
            forall|k: int| 0 <= k < i ==> spec_fault(addrs@, k) is None,
            spec_dev_views(devs@) == spec_selected(addrs@, i as int, wanted_family, filter@),
        decreases addrs@.len() - i,
    {
        let entry = &addrs[i];
        let ghost before = spec_dev_views(devs@);
        if let Some(SockAddr::Inet(addr)) = entry.address {
            if !entry.loopback {
                let name = entry.interface_name.as_str().as_bytes();
                if name.len() >= MAX_IF_NAME_SIZE {
                    return Err(InterfaceError { index: i, fault: InterfaceFault::NameTooLong });
                }
                if !seen_before(addrs, i) {
                    match nix_if_addr_to_cidr(entry) {
                        None => {
                            return Err(
                                InterfaceError { index: i, fault: InterfaceFault::NoNetwork },
                            );
                        },
                        Some(ip_cidr) => {
                            let family = match addr {
                                HostAddr::V4(_) => AF_INET,
                                HostAddr::V6(_) => AF_INET6,
                            };
                            if admits(wanted_family, filter, family, name) {
                                let dev = NCCLSocketDev {
                                    interface_name: entry.interface_name.clone(),
                                    addr,
                                    pci_path: entry.pci_path.clone(),
                                    ip_cidr,
                                };
                                devs.push(dev);
                                assert(spec_dev_views(devs@) =~= before.push(
                                    spec_dev_of(addrs@[i as int]),
                                ));
                            }
                        },
                    }
                }
            }
        }
        i = i + 1;
    }
    Ok(devs)
}

/// The interfaces to use, from the two settings as the environment holds
/// them (`None` where a setting is absent) and the operating system's list.
///
/// The family setting is a family number, and admits every family where it
/// is absent or no number. The name setting is a list of prefixes, and
/// leaves out `docker` and `lo` where it is absent.
pub fn find_interfaces(
    family_setting: Option<&str>,
    ifname_setting: Option<&str>,
    addrs: &Vec<InterfaceAddress>,
) -> (r: Result<Vec<NCCLSocketDev>, InterfaceError>)
    ensures
        spec_selection_is(
            addrs@,
            spec_socket_family(
                match family_setting {
                    Some(text) => Some(text@),
                    None => None,
                },
            ),
            match ifname_setting {
                Some(text) => spec_ifname_filter(spec_name_bytes(text@)),
                None => spec_default_filter(),
            },
            r,
        ),
{
    let wanted_family = socket_family(family_setting);
    let filter = match ifname_setting {
        Some(text) => parse_ifname_filter(text.as_bytes()),
        None => default_ifname_filter(),
    };
    select_interfaces(wanted_family, &filter, addrs)
}

} // verus!
