//! Parsers for what the bridge prints: the device list, the package list and
//! a network interface's addresses. None of them fails: text that does not
//! hold what is looked for gives an empty result.
use vstd::prelude::*;
use crate::text::{
    chars_of, contains, contains_chars, has_prefix, lines, split_lines, split_words,
    starts_with_chars, string_of, words,
};
use vstd::slice::{slice_subrange, slice_to_vec};

verus! {

/// How a device is attached to the host.
#[derive(Clone, Copy, Debug, PartialEq, Eq, Structural)]
pub enum DeviceKind {
    Usb,
    Wireless,
}

/// One line of the device list that names a device ready for use.
#[derive(Clone, Debug)]
pub struct Device {
    /// The serial number, or `host:port` for a device reached over the network.
    pub identifier: String,
    pub kind: DeviceKind,
    /// The whole line as the bridge printed it.
    pub line: String,
}

/// The text that marks a device in the `device` state.
pub open spec fn status_marker() -> Seq<char> {
    "\tdevice"@
}

/// The text of the list's header line.
pub open spec fn header_marker() -> Seq<char> {
    "List of"@
}

/// The text that starts each line of a package list.
pub open spec fn package_prefix() -> Seq<char> {
    "package:"@
}

/// An identifier of the form `host:port` is a network address.
pub open spec fn kind_of(id: Seq<char>) -> DeviceKind {
    if contains(id, ":"@) {
        DeviceKind::Wireless
    } else {
        DeviceKind::Usb
    }
}

pub open spec fn is_device_line(l: Seq<char>) -> bool {
    contains(l, status_marker()) && !contains(l, header_marker()) && words(l).len() > 0
}

/// The device lines among `ls`, each with its first word.
pub open spec fn device_lines(ls: Seq<Seq<char>>) -> Seq<(Seq<char>, Seq<char>)>
    decreases ls.len(),
{
    if ls.len() == 0 {
        seq![]
    } else {
        let rest = device_lines(ls.drop_last());
        if is_device_line(ls.last()) {
            rest.push((ls.last(), words(ls.last())[0]))
        } else {
            rest
        }
    }
}

/// The devices in a device list: the lines after the header, each
/// as the line and its identifier.
pub open spec fn listed_devices(s: Seq<char>) -> Seq<(Seq<char>, Seq<char>)> {
    let ls = lines(s);
    if ls.len() == 0 {
        seq![]
    } else {
        device_lines(ls.drop_first())
    }
}

/// `d` is the device that the line and identifier `e` describe.
pub open spec fn describes(d: Device, e: (Seq<char>, Seq<char>)) -> bool {
    d.line@ == e.0 && d.identifier@ == e.1 && d.kind == kind_of(e.1)
}

/// The kind of a device with the given identifier.
pub fn device_kind(id: &[char]) -> (r: DeviceKind)
    ensures
        r == kind_of(id@),
{
    let colon = chars_of(":");
    if contains_chars(id, colon.as_slice()) {
        DeviceKind::Wireless
    } else {
        DeviceKind::Usb
    }
}

/// Every device in the output of `adb devices`, in the order listed.
pub fn parse_devices(output: &str) -> (r: Vec<Device>)
    ensures
        r@.len() == listed_devices(output@).len(),
        forall|i: int| 0 <= i < r@.len() ==> describes(#[trigger] r@[i], listed_devices(output@)[i]),
{
    let text = chars_of(output);
    let ls = split_lines(text.as_slice());
    let ghost all = lines(output@);
    let mut r: Vec<Device> = Vec::new();
    if ls.len() == 0 {
        return r;
    }
    let ghost body = all.drop_first();
    let marker = chars_of("\tdevice");
    let header = chars_of("List of");
    let mut i: usize = 1;
    while i < ls.len()
        invariant
            1 <= i <= ls@.len(),
            ls@.len() == all.len(),
            body == all.drop_first(),
            forall|k: int| 0 <= k < ls@.len() ==> #[trigger] ls@[k]@ == all[k],
            marker@ == status_marker(),
            header@ == header_marker(),
            r@.len() == device_lines(body.subrange(0, i - 1)).len(),
            forall|k: int|
                0 <= k < r@.len() ==> describes(
                    #[trigger] r@[k],
                    device_lines(body.subrange(0, i - 1))[k],
                ),
        decreases ls@.len() - i,
    {
        let line = &ls[i];
        assert(body.subrange(0, i as int).drop_last() =~= body.subrange(0, i - 1));
        assert(body.subrange(0, i as int).last() == line@);
        if contains_chars(line.as_slice(), marker.as_slice()) && !contains_chars(
            line.as_slice(),
            header.as_slice(),
        ) {
            let parts = split_words(line.as_slice());
            if parts.len() > 0 {
                let id = &parts[0];
                let d = Device {
                    identifier: string_of(id.as_slice()),
                    kind: device_kind(id.as_slice()),
                    line: string_of(line.as_slice()),
                };
                r.push(d);
            }
        }
        i = i + 1;
    }
    assert(body.subrange(0, ls@.len() - 1) =~= body);
    r
}

/// The first device in the output of `adb devices`, if any.
pub fn first_device(output: &str) -> (r: Option<Device>)
    ensures
        listed_devices(output@).len() == 0 <==> r is None,
        r matches Some(d) ==> describes(d, listed_devices(output@)[0]),
{
    let mut all = parse_devices(output);
    if all.len() == 0 {
        None
    } else {
        Some(all.swap_remove(0))
    }
}

/// The package names among `ls`: each line that starts with the prefix, with
/// the prefix taken off and nothing else changed.
pub open spec fn package_names_of(ls: Seq<Seq<char>>) -> Seq<Seq<char>>
    decreases ls.len(),
{
    if ls.len() == 0 {
        seq![]
    } else {
        let rest = package_names_of(ls.drop_last());
        let l = ls.last();
        if has_prefix(l, package_prefix()) {
            rest.push(l.subrange(package_prefix().len() as int, l.len() as int))
        } else {
            rest
        }
    }
}

/// The package names in the output of `pm list packages`, in the order listed.
pub open spec fn listed_packages(s: Seq<char>) -> Seq<Seq<char>> {
    package_names_of(lines(s))
}

/// The package names in `output`, as character vectors.
pub(crate) fn package_name_chars(output: &str) -> (r: Vec<Vec<char>>)
    ensures
        r@.len() == listed_packages(output@).len(),
        forall|i: int| 0 <= i < r@.len() ==> #[trigger] r@[i]@ == listed_packages(output@)[i],
{
    let text = chars_of(output);
    let ls = split_lines(text.as_slice());
    let ghost all = lines(output@);
    let prefix = chars_of("package:");
    let mut r: Vec<Vec<char>> = Vec::new();
    let mut i: usize = 0;
    while i < ls.len()
        invariant
            i <= ls@.len(),
            ls@.len() == all.len(),
            forall|k: int| 0 <= k < ls@.len() ==> #[trigger] ls@[k]@ == all[k],
            prefix@ == package_prefix(),
            r@.len() == package_names_of(all.subrange(0, i as int)).len(),
            forall|k: int|
                0 <= k < r@.len() ==> #[trigger] r@[k]@ == package_names_of(
                    all.subrange(0, i as int),
                )[k],
        decreases ls@.len() - i,
    {
        let line = &ls[i];
        assert(all.subrange(0, i + 1).drop_last() =~= all.subrange(0, i as int));
        assert(all.subrange(0, i + 1).last() == line@);
        if starts_with_chars(line.as_slice(), prefix.as_slice()) {
            let name = slice_subrange(line.as_slice(), prefix.len(), line.len());
            r.push(slice_to_vec(name));
        }
        i = i + 1;
    }
    assert(all.subrange(0, all.len() as int) =~= all);
    r
}

/// The package names in the output of `pm list packages`: each line that
/// starts with `package:`, without it; other lines are passed over.
pub fn parse_package_names(output: &str) -> (r: Vec<String>)
    ensures
        r@.len() == listed_packages(output@).len(),
        forall|i: int| 0 <= i < r@.len() ==> #[trigger] r@[i]@ == listed_packages(output@)[i],
{
    let names = package_name_chars(output);
    let mut r: Vec<String> = Vec::new();
    let mut i: usize = 0;
    while i < names.len()
        invariant
            i <= names@.len(),
            r@.len() == i,
            forall|k: int| 0 <= k < i ==> #[trigger] r@[k]@ == names@[k]@,
        decreases names@.len() - i,
    {
        r.push(string_of(names[i].as_slice()));
        i = i + 1;
    }
    r
}

/// Putting the prefix back before each name read from a package list gives back
/// exactly the lines of the list that carry the prefix, in their order.
pub proof fn lemma_package_lines_round_trip(s: Seq<char>)
    ensures
        listed_packages(s).map_values(|n: Seq<char>| package_prefix() + n) == lines(s).filter(
            |l: Seq<char>| has_prefix(l, package_prefix()),
        ),
{
    lemma_names_restore_lines(lines(s));
}

proof fn lemma_names_restore_lines(ls: Seq<Seq<char>>)
    ensures
        package_names_of(ls).map_values(|n: Seq<char>| package_prefix() + n) == ls.filter(
            |l: Seq<char>| has_prefix(l, package_prefix()),
        ),
    decreases ls.len(),
{
    let f = |n: Seq<char>| package_prefix() + n;
    let pred = |l: Seq<char>| has_prefix(l, package_prefix());
    if ls.len() == 0 {
        assert(ls.filter(pred) =~= seq![]) by {
            reveal(Seq::filter);
        }
        assert(package_names_of(ls).map_values(f) =~= seq![]);
    } else {
        let init = ls.drop_last();
        let l = ls.last();
        lemma_names_restore_lines(init);
        assert(init.push(l) =~= ls);
        init.lemma_filter_push(l, pred);
        let rest = package_names_of(init);
        if pred(l) {
            let n = l.subrange(package_prefix().len() as int, l.len() as int);
            rest.lemma_push_map_commute(f, n);
            assert(f(n) =~= l);
        }
    }
}

/// The part of `t` before its first `'/'` (all of `t` where it has none).
pub open spec fn until_slash(t: Seq<char>) -> Seq<char>
    decreases t.len(),
{
    if t.len() == 0 || t[0] == '/' {
        seq![]
    } else {
        seq![t[0]] + until_slash(t.drop_first())
    }
}

/// After the first word `inet` that has a word after it: that word, without a
/// subnet-mask suffix.
pub open spec fn inet_argument(ws: Seq<Seq<char>>) -> Option<Seq<char>>
    decreases ws.len(),
{
    if ws.len() < 2 {
        None
    } else if ws[0] == "inet"@ {
        Some(until_slash(ws[1]))
    } else {
        inet_argument(ws.drop_first())
    }
}

/// A line that may give an IPv4 address: it holds `inet `, and neither
/// `inet6` nor the loopback address.
pub open spec fn is_ipv4_line(l: Seq<char>) -> bool {
    contains(l, "inet "@) && !contains(l, "inet6"@) && !contains(l, "127.0.0.1"@)
}

pub open spec fn address_in_line(l: Seq<char>) -> Option<Seq<char>> {
    if is_ipv4_line(l) {
        inet_argument(words(l))
    } else {
        None
    }
}

pub open spec fn first_address(ls: Seq<Seq<char>>) -> Option<Seq<char>>
    decreases ls.len(),
{
    if ls.len() == 0 {
        None
    } else if address_in_line(ls[0]) is Some {
        address_in_line(ls[0])
    } else {
        first_address(ls.drop_first())
    }
}

/// The device's IPv4 address in the output of `ip addr show`: the first that
/// a line gives, if any.
pub open spec fn device_address(s: Seq<char>) -> Option<Seq<char>> {
    first_address(lines(s))
}

fn prefix_until_slash(t: &[char]) -> (r: Vec<char>)
    ensures
        r@ == until_slash(t@),
{
    let mut r: Vec<char> = Vec::new();
    let mut i: usize = 0;
    assert(t@.subrange(0, t@.len() as int) =~= t@);
    while i < t.len() && t[i] != '/'
        invariant
            i <= t@.len(),
            until_slash(t@) == r@ + until_slash(t@.subrange(i as int, t@.len() as int)),
        decreases t@.len() - i,
    {
        let ghost rest = t@.subrange(i as int, t@.len() as int);
        assert(rest.drop_first() =~= t@.subrange(i + 1, t@.len() as int));
        r.push(t[i]);
        assert(r@ + until_slash(rest.drop_first()) =~= r@.drop_last() + until_slash(rest));
        i = i + 1;
    }
    assert(r@ + seq![] =~= r@);
    r
}

fn inet_argument_exec(ws: &Vec<Vec<char>>) -> (r: Option<Vec<char>>)
    ensures
        r is Some == inet_argument(ws@.map_values(|w: Vec<char>| w@)) is Some,
        r matches Some(a) ==> Some(a@) == inet_argument(ws@.map_values(|w: Vec<char>| w@)),
{
    let ghost all = ws@.map_values(|w: Vec<char>| w@);
    let inet = chars_of("inet");
    let mut i: usize = 0;
    assert(all.subrange(0, all.len() as int) =~= all);
    while ws.len() > 1 && i < ws.len() - 1
        invariant
            i <= ws@.len(),
            all == ws@.map_values(|w: Vec<char>| w@),
            inet@ == "inet"@,
            inet_argument(all) == inet_argument(all.subrange(i as int, all.len() as int)),
        decreases ws@.len() - i,
    {
        let ghost rest = all.subrange(i as int, all.len() as int);
        assert(rest.drop_first() =~= all.subrange(i + 1, all.len() as int));
        assert(rest[0] == ws@[i as int]@);
        let w = &ws[i];
        if w.len() == inet.len() && starts_with_chars(w.as_slice(), inet.as_slice()) {
            assert(w@ =~= w@.subrange(0, inet@.len() as int));
            return Some(prefix_until_slash(ws[i + 1].as_slice()));
        }
        assert(rest[0] != "inet"@) by {
            if rest[0] == "inet"@ {
                assert(w@.subrange(0, inet@.len() as int) =~= w@);
            }
        }
        i = i + 1;
    }
    None
}

/// The device's IPv4 address in the output of `ip addr show`: on the first
/// line that holds `inet ` but neither `inet6` nor `127.0.0.1`, and has a word
/// after a word `inet`, that word up to any `/`.
pub fn extract_ip(output: &str) -> (r: Option<String>)
    ensures
        r is Some == device_address(output@) is Some,
        r matches Some(a) ==> Some(a@) == device_address(output@),
{
    let text = chars_of(output);
    let ls = split_lines(text.as_slice());
    let ghost all = lines(output@);
    let inet = chars_of("inet ");
    let inet6 = chars_of("inet6");
    let loopback = chars_of("127.0.0.1");
    let mut i: usize = 0;
    assert(all.subrange(0, all.len() as int) =~= all);
    while i < ls.len()
        invariant
            i <= ls@.len(),
            ls@.len() == all.len(),
            forall|k: int| 0 <= k < ls@.len() ==> #[trigger] ls@[k]@ == all[k],
            all == lines(output@),
            inet@ == "inet "@,
            inet6@ == "inet6"@,
            loopback@ == "127.0.0.1"@,
            first_address(all) == first_address(all.subrange(i as int, all.len() as int)),
        decreases ls@.len() - i,
    {
        let ghost rest = all.subrange(i as int, all.len() as int);
        assert(rest.drop_first() =~= all.subrange(i + 1, all.len() as int));
        let line = ls[i].as_slice();
        assert(rest[0] == line@);
        if contains_chars(line, inet.as_slice()) && !contains_chars(line, inet6.as_slice())
            && !contains_chars(line, loopback.as_slice()) {
            let ws = split_words(line);
            assert(ws@.map_values(|w: Vec<char>| w@) =~= words(line@));
            match inet_argument_exec(&ws) {
                Some(a) => {
                    assert(address_in_line(rest[0]) == Some(a@));
                    assert(first_address(rest) == Some(a@));
                    let r = string_of(a.as_slice());
                    assert(r@ == a@);

                    return Some(r);
                },
                None => {},
            }
        }
        i = i + 1;
    }
    None
}

proof fn lemma_device_lines_named(ls: Seq<Seq<char>>)
    ensures
        forall|k: int|
            0 <= k < device_lines(ls).len() ==> (#[trigger] device_lines(ls)[k]).1.len() > 0,
    decreases ls.len(),
{
    if ls.len() > 0 {
        let prev = device_lines(ls.drop_last());
        lemma_device_lines_named(ls.drop_last());
        crate::text::lemma_words_nonempty(ls.last());
        let now = device_lines(ls);
        assert forall|k: int| 0 <= k < now.len() implies (#[trigger] now[k]).1.len() > 0 by {
            if k < prev.len() {
                assert(now[k] == prev[k]);
            }
        }
    }
}

/// Every listed device has a non-empty identifier.
pub proof fn lemma_listed_devices_named(s: Seq<char>)
    ensures
        forall|k: int|
            0 <= k < listed_devices(s).len() ==> (#[trigger] listed_devices(s)[k]).1.len() > 0,
{
    let ls = lines(s);
    if ls.len() > 0 {
        lemma_device_lines_named(ls.drop_first());
    }
}

proof fn lemma_unmarked_lines_list_nothing(ls: Seq<Seq<char>>)
    requires
        forall|i: int| 0 <= i < ls.len() ==> !contains(#[trigger] ls[i], status_marker()),
    ensures
        device_lines(ls).len() == 0,
    decreases ls.len(),
{
    if ls.len() > 0 {
        lemma_unmarked_lines_list_nothing(ls.drop_last());
        assert(!contains(ls[ls.len() - 1], status_marker()));
    }
}

/// A device list in which no line after the header holds the status marker
/// lists no device; on such a list `Session::refresh` leaves the session
/// disconnected with an empty identifier.
pub proof fn lemma_no_marker_no_device(s: Seq<char>)
    requires
        forall|i: int| 1 <= i < lines(s).len() ==> !contains(#[trigger] lines(s)[i], status_marker()),
    ensures
        listed_devices(s).len() == 0,
{
    let ls = lines(s);
    if ls.len() > 0 {
        let body = ls.drop_first();
        assert forall|i: int| 0 <= i < body.len() implies !contains(#[trigger] body[i], status_marker()) by {
            assert(body[i] == ls[i + 1]);
        }
        lemma_unmarked_lines_list_nothing(body);
    }
}

} // verus!
