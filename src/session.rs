//! The session: how the host reaches the device, and the package catalog
//! with the operator's selection.
use vstd::prelude::*;
use crate::catalog::{
    all_fresh, catalog_from_listing, catalog_from_probes, is_critical, is_sorted, package_names,
    probes_found, Package, Probe, critical_packages, matches_search, matches_term,
};
use crate::parse::{first_device, kind_of, listed_devices, listed_packages, DeviceKind};
use crate::text::{contains, occurs_at};

verus! {

/// How the host reaches the device.
#[derive(Clone, Copy, Debug, PartialEq, Eq, Structural)]
pub enum Connection {
    Disconnected,
    UsbConnected,
    WirelessConnected,
}

/// The connection that a device of the given kind gives.
pub open spec fn connection_for(kind: DeviceKind) -> Connection {
    match kind {
        DeviceKind::Usb => Connection::UsbConnected,
        DeviceKind::Wireless => Connection::WirelessConnected,
    }
}

/// `host:port`.
pub open spec fn network_address(ip: Seq<char>, port: Seq<char>) -> Seq<char> {
    ip + ":"@ + port
}

/// Builds `host:port`.
pub fn join_address(ip: &str, port: &str) -> (r: String)
    ensures
        r@ == network_address(ip@, port@),
{
    let mut r = String::from_str(ip);
    r.append(":");
    r.append(port);
    r
}

proof fn lemma_address_has_colon(ip: Seq<char>, port: Seq<char>)
    ensures
        contains(network_address(ip, port), ":"@),
        network_address(ip, port).len() > 0,
{
    reveal_strlit(":");
    let a = network_address(ip, port);
    assert(a.subrange(ip.len() as int, ip.len() + 1 as int) =~= ":"@);
    assert(occurs_at(a, ":"@, ip.len() as int));
}

/// What the bridge answered when pairing and then connecting.
#[derive(Clone, Copy, Debug, PartialEq, Eq, Structural)]
pub enum PairingResult {
    Connected,
    PairingFailed,
    ConnectFailed,
}

/// The operation needs a device, and none is connected.
#[derive(Clone, Copy, Debug, PartialEq, Eq, Structural)]
pub struct NotConnected;

/// A point-in-time list of the catalog's package names.
#[derive(Clone, Debug)]
pub struct Backup {
    pub timestamp: String,
    pub packages: Vec<String>,
}

/// The name of the file a backup taken at `timestamp` is written to.
pub open spec fn backup_file(timestamp: Seq<char>) -> Seq<char> {
    "backup_"@ + timestamp + ".json"@
}

/// `backup_<timestamp>.json`.
pub fn backup_file_name(timestamp: &str) -> (r: String)
    ensures
        r@ == backup_file(timestamp@),
{
    let mut r = String::from_str("backup_");
    r.append(timestamp);
    r.append(".json");
    r
}

/// The state that one operator session keeps.
#[derive(Debug)]
pub struct Session {
    pub connection: Connection,
    /// The device's serial number over USB, `host:port` over the network,
    /// empty when disconnected.
    pub device: String,
    /// The catalog as last loaded, with the selection.
    pub packages: Vec<Package>,
}

impl Session {
    /// The identifier is empty exactly when disconnected; a network identifier
    /// holds a `:` and a USB one does not.
    pub open spec fn wf(&self) -> bool {
        match self.connection {
            Connection::Disconnected => self.device@.len() == 0,
            Connection::UsbConnected => self.device@.len() > 0 && !contains(self.device@, ":"@),
            Connection::WirelessConnected => self.device@.len() > 0 && contains(
                self.device@,
                ":"@,
            ),
        }
    }

    /// A disconnected session with an empty catalog.
    pub fn new() -> (r: Session)
        ensures
            r.wf(),
            r.connection == Connection::Disconnected,
            r.device@.len() == 0,
            r.packages@.len() == 0,
    {
        Session { connection: Connection::Disconnected, device: String::new(), packages: Vec::new() }
    }

    /// Takes the first device of a fresh `adb devices` listing as the
    /// connected one; with none listed, the session is disconnected. Returns
    /// whether a device is connected.
    pub fn refresh(&mut self, device_list: &str) -> (r: bool)
        requires
            old(self).wf(),
        ensures
            final(self).wf(),
            r == (listed_devices(device_list@).len() > 0),
            !r ==> final(self).connection == Connection::Disconnected && final(self).device@.len() == 0,
            r ==> final(self).device@ == listed_devices(device_list@)[0].1
                && final(self).connection == connection_for(kind_of(listed_devices(device_list@)[0].1)),
            final(self).packages == old(self).packages,
    {
        proof {
            crate::parse::lemma_listed_devices_named(device_list@);
        }
        match first_device(device_list) {
            Some(d) => {
                self.connection = match d.kind {
                    DeviceKind::Usb => Connection::UsbConnected,
                    DeviceKind::Wireless => Connection::WirelessConnected,
                };
                self.device = d.identifier;
                true
            },
            None => {
                self.connection = Connection::Disconnected;
                self.device = String::new();
                false
            },
        }
    }

    /// Records the answer to `adb connect ip:port`: on success the session is
    /// connected over the network to `ip:port`; on failure nothing changes.
    pub fn connect_wireless(&mut self, ip: &str, port: &str, succeeded: bool)
        requires
            old(self).wf(),
        ensures
            final(self).wf(),
            succeeded ==> final(self).connection == Connection::WirelessConnected
                && final(self).device@ == network_address(ip@, port@),
            !succeeded ==> final(self).connection == old(self).connection
                && final(self).device@ == old(self).device@,
            final(self).packages == old(self).packages,
    {
        if succeeded {
            proof {
                lemma_address_has_colon(ip@, port@);
            }
            self.connection = Connection::WirelessConnected;
            self.device = join_address(ip, port);
        }
    }

    /// Records the answers to pairing at `ip` and then connecting to
    /// `ip:connect_port`. Only when both succeeded is the session connected,
    /// over the network; otherwise nothing changes and the result names the
    /// step that failed. `connected` is not read when pairing failed.
    pub fn pair_and_connect(&mut self, ip: &str, connect_port: &str, paired: bool, connected: bool) -> (r: PairingResult)
        requires
            old(self).wf(),
        ensures
            final(self).wf(),
            r == (if !paired {
                PairingResult::PairingFailed
            } else if !connected {
                PairingResult::ConnectFailed
            } else {
                PairingResult::Connected
            }),
            r == PairingResult::Connected ==> final(self).connection == Connection::WirelessConnected
                && final(self).device@ == network_address(ip@, connect_port@),
            r != PairingResult::Connected ==> final(self).connection == old(self).connection
                && final(self).device@ == old(self).device@,
            final(self).packages == old(self).packages,
    {
        if !paired {
            PairingResult::PairingFailed
        } else if !connected {
            PairingResult::ConnectFailed
        } else {
            self.connect_wireless(ip, connect_port, true);
            PairingResult::Connected
        }
    }

    /// Ends a network connection. When connected over the network, returns
    /// the identifier to hand to `adb disconnect` and leaves the session
    /// disconnected, whatever that command then answers; otherwise returns
    /// `None` and changes nothing.
    pub fn disconnect_wireless(&mut self) -> (r: Option<String>)
        requires
            old(self).wf(),
        ensures
            final(self).wf(),
            old(self).connection == Connection::WirelessConnected ==> (r matches Some(id) && id@
                == old(self).device@) && final(self).connection == Connection::Disconnected
                && final(self).device@.len() == 0,
            old(self).connection != Connection::WirelessConnected ==> r is None && final(self).connection
                == old(self).connection && final(self).device@ == old(self).device@,
            final(self).packages == old(self).packages,
    {
        if self.connection == Connection::WirelessConnected {
            let id = self.device.clone();
            self.device = String::new();
            self.connection = Connection::Disconnected;
            Some(id)
        } else {
            None
        }
    }

    /// Whether the device may be switched to network mode: only over USB.
    pub fn can_enable_wireless(&self) -> (r: bool)
        ensures
            r == (self.connection == Connection::UsbConnected),
    {
        self.connection == Connection::UsbConnected
    }

    /// Succeeds when a device is connected.
    pub fn require_device(&self) -> (r: Result<(), NotConnected>)
        ensures
            r is Ok == (self.connection != Connection::Disconnected),
    {
        if self.connection == Connection::Disconnected {
            Err(NotConnected)
        } else {
            Ok(())
        }
    }

    /// Replaces the catalog with every package in a listing of the system
    /// packages, unselected, in ascending order of name.
    pub fn load_system_packages(&mut self, listing: &str)
        requires
            old(self).wf(),
        ensures
            final(self).wf(),
            is_sorted(package_names(final(self).packages@)),
            package_names(final(self).packages@).to_multiset() == listed_packages(listing@).to_multiset(),
            all_fresh(final(self).packages@),
            final(self).connection == old(self).connection,
            final(self).device == old(self).device,
    {
        self.packages = catalog_from_listing(listing);
    }

    /// Replaces the catalog with the known bloatware that the probes found:
    /// each name once, unselected, in ascending order of name.
    pub fn scan_known_bloatware(&mut self, probes: &Vec<Probe>)
        requires
            old(self).wf(),
        ensures
            final(self).wf(),
            is_sorted(package_names(final(self).packages@)),
            package_names(final(self).packages@).to_multiset() == probes_found(probes@).to_multiset(),
            package_names(final(self).packages@).no_duplicates(),
            all_fresh(final(self).packages@),
            final(self).connection == old(self).connection,
            final(self).device == old(self).device,
    {
        self.packages = catalog_from_probes(probes);
    }

    /// Flips the selection of the record at `index`; nothing else changes.
    pub fn toggle_selection(&mut self, index: usize)
        requires
            old(self).wf(),
            index < old(self).packages@.len(),
        ensures
            final(self).wf(),
            final(self).packages@.len() == old(self).packages@.len(),
            final(self).packages@[index as int].is_selected == !old(self).packages@[index as int].is_selected,
            final(self).packages@[index as int].name == old(self).packages@[index as int].name,
            final(self).packages@[index as int].is_system == old(self).packages@[index as int].is_system,
            forall|k: int|
                0 <= k < final(self).packages@.len() && k != index ==> final(self).packages@[k]
                    == old(self).packages@[k],
            final(self).connection == old(self).connection,
            final(self).device == old(self).device,
    {
        let flipped = !self.packages[index].is_selected;
        self.packages[index].is_selected = flipped;
    }

    /// Sets the selection of every record to `selected`; nothing else changes.
    pub fn set_all_selected(&mut self, selected: bool)
        requires
            old(self).wf(),
        ensures
            final(self).wf(),
            final(self).packages@.len() == old(self).packages@.len(),
            forall|k: int|
                0 <= k < final(self).packages@.len() ==> (#[trigger] final(self).packages@[k]).is_selected
                    == selected && final(self).packages@[k].name == old(self).packages@[k].name
                    && final(self).packages@[k].is_system == old(self).packages@[k].is_system,
            final(self).connection == old(self).connection,
            final(self).device == old(self).device,
    {
        let n = self.packages.len();
        let mut i: usize = 0;
        while i < n
            invariant
                n == self.packages@.len(),
                n == old(self).packages@.len(),
                i <= n,
                self.wf(),
                self.connection == old(self).connection,
                self.device == old(self).device,
                forall|k: int|
                    0 <= k < n ==> (#[trigger] self.packages@[k]).name == old(self).packages@[k].name
                        && self.packages@[k].is_system == old(self).packages@[k].is_system,
                forall|k: int| 0 <= k < i ==> (#[trigger] self.packages@[k]).is_selected == selected,
            decreases n - i,
        {
            self.packages[i].is_selected = selected;
            i = i + 1;
        }
    }

    /// Selects every record.
    pub fn select_all(&mut self)
        requires
            old(self).wf(),
        ensures
            final(self).wf(),
            final(self).packages@.len() == old(self).packages@.len(),
            forall|k: int|
                0 <= k < final(self).packages@.len() ==> (#[trigger] final(self).packages@[k]).is_selected
                    && final(self).packages@[k].name == old(self).packages@[k].name
                    && final(self).packages@[k].is_system == old(self).packages@[k].is_system,
            final(self).connection == old(self).connection,
            final(self).device == old(self).device,
    {
        self.set_all_selected(true);
    }

    /// Clears the selection of every record.
    pub fn deselect_all(&mut self)
        requires
            old(self).wf(),
        ensures
            final(self).wf(),
            final(self).packages@.len() == old(self).packages@.len(),
            forall|k: int|
                0 <= k < final(self).packages@.len() ==> !(#[trigger] final(self).packages@[k]).is_selected
                    && final(self).packages@[k].name == old(self).packages@[k].name
                    && final(self).packages@[k].is_system == old(self).packages@[k].is_system,
            final(self).connection == old(self).connection,
            final(self).device == old(self).device,
    {
        self.set_all_selected(false);
    }

    /// The names of the selected records, in catalog order.
    pub fn selected_names(&self) -> (r: Vec<String>)
        ensures
            r@.map_values(|s: String| s@) == selected_of(self.packages@),
    {
        let mut r: Vec<String> = Vec::new();
        let mut i: usize = 0;
        while i < self.packages.len()
            invariant
                i <= self.packages@.len(),
                r@.map_values(|s: String| s@) == selected_of(self.packages@.subrange(0, i as int)),
            decreases self.packages@.len() - i,
        {
            assert(self.packages@.subrange(0, i + 1).drop_last() =~= self.packages@.subrange(0, i as int));
            let p = &self.packages[i];
            if p.is_selected {
                let ghost before = r@;
                r.push(p.name.clone());
                assert(r@.map_values(|s: String| s@) =~= before.map_values(|s: String| s@).push(p.name@));
            }
            i = i + 1;
        }
        assert(self.packages@.subrange(0, self.packages@.len() as int) =~= self.packages@);
        r
    }

    /// The positions of the records whose names match `term`, neither case
    /// counting, in ascending order.
    pub fn matching_indices(&self, term: &str) -> (r: Vec<usize>)
        ensures
            r@.map_values(|i: usize| i as int) == matching_positions(self.packages@, term@),
    {
        let mut r: Vec<usize> = Vec::new();
        let mut i: usize = 0;
        while i < self.packages.len()
            invariant
                i <= self.packages@.len(),
                r@.map_values(|i: usize| i as int) == matching_positions(
                    self.packages@.subrange(0, i as int),
                    term@,
                ),
            decreases self.packages@.len() - i,
        {
            assert(self.packages@.subrange(0, i + 1).drop_last() =~= self.packages@.subrange(0, i as int));
            if matches_search(self.packages[i].name.as_str(), term) {
                let ghost before = r@;
                r.push(i);
                assert(r@.map_values(|i: usize| i as int) =~= before.map_values(|i: usize| i as int).push(i as int));
            }
            i = i + 1;
        }
        assert(self.packages@.subrange(0, self.packages@.len() as int) =~= self.packages@);
        r
    }

    /// A backup of the catalog's names taken at `timestamp`, whatever is
    /// selected; `None` when the catalog is empty.
    pub fn backup(&self, timestamp: &str) -> (r: Option<Backup>)
        ensures
            self.packages@.len() == 0 <==> r is None,
            r matches Some(b) ==> b.timestamp@ == timestamp@ && b.packages@.map_values(
                |s: String| s@,
            ) == package_names(self.packages@),
    {
        if self.packages.len() == 0 {
            return None;
        }
        let mut names: Vec<String> = Vec::new();
        let mut i: usize = 0;
        while i < self.packages.len()
            invariant
                i <= self.packages@.len(),
                names@.len() == i,
                forall|k: int| 0 <= k < i ==> #[trigger] names@[k]@ == self.packages@[k].name@,
            decreases self.packages@.len() - i,
        {
            names.push(self.packages[i].name.clone());
            i = i + 1;
        }
        assert(names@.map_values(|s: String| s@) =~= package_names(self.packages@));
        Some(Backup { timestamp: String::from_str(timestamp), packages: names })
    }
}

/// The names of the selected records, in order.
pub open spec fn selected_of(ps: Seq<Package>) -> Seq<Seq<char>>
    decreases ps.len(),
{
    if ps.len() == 0 {
        seq![]
    } else {
        let rest = selected_of(ps.drop_last());
        if ps.last().is_selected {
            rest.push(ps.last().name@)
        } else {
            rest
        }
    }
}

/// The positions of the records whose names match `term`, in order.
pub open spec fn matching_positions(ps: Seq<Package>, term: Seq<char>) -> Seq<int>
    decreases ps.len(),
{
    if ps.len() == 0 {
        seq![]
    } else {
        let rest = matching_positions(ps.drop_last(), term);
        if matches_term(ps.last().name@, term) {
            rest.push(ps.len() - 1)
        } else {
            rest
        }
    }
}

/// The critical names among `names`, in their order.
pub open spec fn critical_of(names: Seq<Seq<char>>) -> Seq<Seq<char>> {
    names.filter(|n: Seq<char>| critical_packages().contains(n))
}

/// The names among `names` that are critical, in their order: those the
/// operator must confirm before they are removed.
pub fn critical_among(names: &Vec<String>) -> (r: Vec<String>)
    ensures
        r@.map_values(|s: String| s@) == critical_of(names@.map_values(|s: String| s@)),
{
    let ghost all = names@.map_values(|s: String| s@);
    let ghost pred = |n: Seq<char>| critical_packages().contains(n);
    let mut r: Vec<String> = Vec::new();
    let mut i: usize = 0;
    assert(all.subrange(0, 0).filter(pred) =~= Seq::<Seq<char>>::empty()) by {
        reveal(Seq::filter);
    }
    while i < names.len()
        invariant
            i <= names@.len(),
            all == names@.map_values(|s: String| s@),
            pred == (|n: Seq<char>| critical_packages().contains(n)),
            r@.map_values(|s: String| s@) == all.subrange(0, i as int).filter(pred),
        decreases names@.len() - i,
    {
        let ghost prev = all.subrange(0, i as int);
        assert(all.subrange(0, i + 1) =~= prev.push(all[i as int]));
        proof {
            prev.lemma_filter_push(all[i as int], pred);
        }
        let name = &names[i];
        if is_critical(name.as_str()) {
            let ghost before = r@;
            r.push(name.clone());
            assert(r@.map_values(|s: String| s@) =~= before.map_values(|s: String| s@).push(name@));
        }
        i = i + 1;
    }
    assert(all.subrange(0, all.len() as int) =~= all);
    r
}

} // verus!
