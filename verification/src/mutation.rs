//! The mutation API: every operation a plugin may invoke against the
//! host.
//!
//! [`HostState`] owns the single host configuration together with two
//! handle tables, one for transient options maps and one for transient
//! byte-buffer lists.  A handle is an index into its table; a destroyed
//! slot is never reused, so a retained handle can always be recognized
//! as stale.  A record handed out by [`HostState::get_host_by_index`]
//! stands for a borrowed view of the configuration: the options map it
//! exposes stays readable only until the host sequence is next mutated,
//! at which point the host frees it and the handle goes stale.
//!
//! Each operation is atomic with respect to a single call, checks every
//! handle it is given, and on any error leaves the whole state exactly
//! as it was.

use vstd::prelude::*;
use vstd::slice::slice_to_vec;
use vstd::utf8::decode_utf8;
use vstd::utf8::valid_utf8;

use crate::abi;
use crate::abi::ListHandle;
use crate::abi::MarshalError;
use crate::abi::OptionsMapHandle;
use crate::marshal::decode_field;
use crate::marshal::decode_host;
use crate::marshal::encode_host;
use crate::marshal::encoded_record;
use crate::marshal::record_decodes;
use crate::marshal::decoded_record;
use crate::model::HostView;
use crate::model::OptionsMap;
use crate::model::SshConfig;
use crate::model::SshConfigView;

verus! {

/// A transient ordered sequence of byte buffers, the result channel
/// for argument overrides.  Created by the host on a plugin's behalf,
/// appended to by the plugin one buffer at a time, and handed back to
/// the host by handle, at which point the host owns and destroys it.
#[derive(Debug, PartialEq, Eq)]
pub struct List {
    pub v: Vec<Vec<u8>>,
}

impl View for List {
    type V = Seq<Seq<u8>>;

    open spec fn view(&self) -> Seq<Seq<u8>> {
        self.v.deep_view()
    }
}

impl Default for List {
    fn default() -> (r: List)
        ensures
            r@ == Seq::<Seq<u8>>::empty(),
    {
        let r = List { v: Vec::new() };
        proof {
            assert(r@ =~= Seq::<Seq<u8>>::empty());
        }
        r
    }
}

/// One slot of the options-map table.
enum MapSlot {
    /// Destroyed or invalidated; the slot is never reused.
    Free,
    /// Created by a plugin through [`HostState::create_options_map`]
    /// and owned by it until the matching destroy call.
    Owned(OptionsMap),
    /// A read-only copy the host registered while marshalling a host
    /// record out; freed at the next mutation of the host sequence.
    Borrowed(OptionsMap),
}

/// Mathematical value of one options-map slot.
pub ghost enum MapSlotView {
    Free,
    Owned(Map<Seq<char>, Seq<char>>),
    Borrowed(Map<Seq<char>, Seq<char>>),
}

/// Mathematical value of the whole host state.
#[verifier::ext_equal]
pub ghost struct StateView {
    pub config: SshConfigView,
    pub maps: Seq<MapSlotView>,
    pub lists: Seq<Option<Seq<Seq<u8>>>>,
}

impl StateView {
    /// The handle names a slot holding a live map, whoever owns it.
    pub open spec fn map_live(self, id: int) -> bool {
        0 <= id < self.maps.len() && !(self.maps[id] is Free)
    }

    /// The handle names a live map obtained from the create call.
    pub open spec fn map_owned(self, id: int) -> bool {
        0 <= id < self.maps.len() && self.maps[id] is Owned
    }

    /// Contents of the map a live handle names.
    pub open spec fn map_value(self, id: int) -> Map<Seq<char>, Seq<char>> {
        match self.maps[id] {
            MapSlotView::Owned(m) => m,
            MapSlotView::Borrowed(m) => m,
            MapSlotView::Free => Map::empty(),
        }
    }

    /// The handle names a live list.
    pub open spec fn list_live(self, id: int) -> bool {
        0 <= id < self.lists.len() && self.lists[id] is Some
    }

    /// Contents of the list a live handle names.
    pub open spec fn list_value(self, id: int) -> Seq<Seq<u8>> {
        match self.lists[id] {
            Some(l) => l,
            None => Seq::empty(),
        }
    }

    /// The host sequence of the configuration.
    pub open spec fn hosts(self) -> Seq<HostView> {
        self.config.hosts
    }
}

/// The map table after a mutation of the host sequence: every borrowed
/// view is freed, every plugin-owned map survives.
pub open spec fn drop_borrowed(maps: Seq<MapSlotView>) -> Seq<MapSlotView> {
    maps.map_values(
        |s: MapSlotView|
            match s {
                MapSlotView::Borrowed(_) => MapSlotView::Free,
                _ => s,
            },
    )
}

/// The texts of a returned list, if every buffer is well-formed UTF-8.
pub open spec fn decoded_entries(entries: Seq<Seq<u8>>) -> Option<Seq<Seq<char>>> {
    if forall|i: int| 0 <= i < entries.len() ==> valid_utf8(#[trigger] entries[i]) {
        Some(entries.map_values(|b: Seq<u8>| decode_utf8(b)))
    } else {
        None
    }
}

/// Append monotonicity: appending a host grows the sequence by
/// exactly one, and the entry at the old length is the appended host,
/// so a fetch at the old count succeeds and sees it.
pub proof fn lemma_append_monotonic(hosts: Seq<HostView>, h: HostView)
    ensures
        hosts.push(h).len() == hosts.len() + 1,
        hosts.push(h)[hosts.len() as int] == h,
{
}

/// The host process's mutable state as reachable from a plugin: the
/// configuration plus the two handle tables.
pub struct HostState {
    config: SshConfig,
    maps: Vec<MapSlot>,
    lists: Vec<Option<List>>,
}

impl View for HostState {
    type V = StateView;

    closed spec fn view(&self) -> StateView {
        StateView {
            config: self.config@,
            maps: self.maps@.map_values(
                |s: MapSlot|
                    match s {
                        MapSlot::Free => MapSlotView::Free,
                        MapSlot::Owned(m) => MapSlotView::Owned(m@),
                        MapSlot::Borrowed(m) => MapSlotView::Borrowed(m@),
                    },
            ),
            lists: self.lists@.map_values(
                |o: Option<List>|
                    match o {
                        Some(l) => Some(l@),
                        None => None,
                    },
            ),
        }
    }
}

impl HostState {
    /// Every map in the state, the configuration's included, has
    /// unique keys.
    pub closed spec fn wf(&self) -> bool {
        &&& self.config.wf()
        &&& forall|i: int|
            0 <= i < self.maps@.len() ==> match #[trigger] self.maps@[i] {
                MapSlot::Free => true,
                MapSlot::Owned(m) => m.wf(),
                MapSlot::Borrowed(m) => m.wf(),
            }
    }

    /// Takes ownership of the parsed configuration; no handle is live
    /// yet.
    pub fn new(config: SshConfig) -> (r: HostState)
        requires
            config.wf(),
        ensures
            r.wf(),
            r@.config == config@,
            r@.maps == Seq::<MapSlotView>::empty(),
            r@.lists == Seq::<Option<Seq<Seq<u8>>>>::empty(),
    {
        let r = HostState { config, maps: Vec::new(), lists: Vec::new() };
        proof {
            assert(r@.maps =~~= Seq::<MapSlotView>::empty());
            assert(r@.lists =~~= Seq::<Option<Seq<Seq<u8>>>>::empty());
        }
        r
    }

    /// Read access to the configuration for the host's own code.
    pub fn config(&self) -> (r: &SshConfig)
        ensures
            r@ == self@.config,
            self.wf() ==> r.wf(),
    {
        &self.config
    }

    /// Current length of the host sequence.
    pub fn hosts_length(&self) -> (r: usize)
        ensures
            r == self@.hosts().len(),
    {
        self.config.hosts.len()
    }

    /// Frees every borrowed view; called on each mutation of the host
    /// sequence.
    fn clear_borrowed(&mut self)
        requires
            old(self).wf(),
        ensures
            final(self).wf(),
            final(self)@.config == old(self)@.config,
            final(self)@.lists == old(self)@.lists,
            final(self)@.maps == drop_borrowed(old(self)@.maps),
    {
        let n = self.maps.len();
        let mut i: usize = 0;
        while i < n
            invariant
                old(self).wf(),
                i <= n,
                n == self.maps@.len(),
                self.config == old(self).config,
                self.lists == old(self).lists,
                forall|j: int|
                    0 <= j < i ==> self.maps@[j] == (match old(self).maps@[j] {
                        MapSlot::Borrowed(_) => MapSlot::Free,
                        _ => old(self).maps@[j],
                    }),
                forall|j: int| i <= j < n ==> self.maps@[j] == old(self).maps@[j],
            decreases n - i,
        {
            let is_borrowed = match &self.maps[i] {
                MapSlot::Borrowed(_) => true,
                _ => false,
            };
            if is_borrowed {
                self.maps[i] = MapSlot::Free;
            }
            i += 1;
        }
        proof {
            assert(self@.maps =~~= drop_borrowed(old(self)@.maps));
            assert(self.wf());
        }
    }

    /// Appends the host described by `record` to the configuration.
    ///
    /// The record's strings are decoded and copied, and the entries of
    /// the options map its handle names are cloned, so nothing the
    /// plugin owns is retained.  A stale handle or ill-formed UTF-8
    /// rejects the call and leaves the state untouched; on success the
    /// mutation frees every borrowed view.
    pub fn append_host(&mut self, record: &abi::Host) -> (r: Result<(), MarshalError>)
        requires
            old(self).wf(),
        ensures
            final(self).wf(),
            match r {
                Ok(_) => {
                    &&& old(self)@.map_live(record@.other)
                    &&& record_decodes(record@)
                    &&& final(self)@ == (StateView {
                        config: SshConfigView {
                            global_options: old(self)@.config.global_options,
                            hosts: old(self)@.hosts().push(
                                decoded_record(record@, old(self)@.map_value(record@.other)),
                            ),
                        },
                        maps: drop_borrowed(old(self)@.maps),
                        lists: old(self)@.lists,
                    })
                },
                Err(MarshalError::StaleHandle) => {
                    &&& !old(self)@.map_live(record@.other)
                    &&& final(self)@ == old(self)@
                },
                Err(MarshalError::InvalidUtf8) => {
                    &&& old(self)@.map_live(record@.other)
                    &&& !record_decodes(record@)
                    &&& final(self)@ == old(self)@
                },
            },
    {
        let idx = record.other.index();
        if idx >= self.maps.len() {
            return Err(MarshalError::StaleHandle);
        }
        let decoded = match &self.maps[idx] {
            MapSlot::Free => {
                return Err(MarshalError::StaleHandle);
            },
            MapSlot::Owned(m) => decode_host(record, m),
            MapSlot::Borrowed(m) => decode_host(record, m),
        };
        let host = match decoded {
            Ok(h) => h,
            Err(e) => {
                return Err(e);
            },
        };
        let ghost pre = *self;
        self.config.hosts.push(host);
        proof {
            assert(self.config@.hosts =~= pre.config@.hosts.push(
                decoded_record(record@, pre@.map_value(record@.other)),
            ));
            assert(self.wf());
        }
        self.clear_borrowed();
        proof {
            assert(self@ =~~= (StateView {
                config: SshConfigView {
                    global_options: old(self)@.config.global_options,
                    hosts: old(self)@.hosts().push(
                        decoded_record(record@, old(self)@.map_value(record@.other)),
                    ),
                },
                maps: drop_borrowed(old(self)@.maps),
                lists: old(self)@.lists,
            }));
        }
        Ok(())
    }

    /// Removes the host at `index` if it is within bounds; otherwise
    /// returns false and changes nothing.  A successful removal frees
    /// every borrowed view, and the indices of the remaining hosts
    /// shift down past the removed one.
    pub fn remove_host_by_index(&mut self, index: usize) -> (r: bool)
        requires
            old(self).wf(),
        ensures
            final(self).wf(),
            r == (index < old(self)@.hosts().len()),
            !r ==> final(self)@ == old(self)@,
            r ==> final(self)@ == (StateView {
                config: SshConfigView {
                    global_options: old(self)@.config.global_options,
                    hosts: old(self)@.hosts().remove(index as int),
                },
                maps: drop_borrowed(old(self)@.maps),
                lists: old(self)@.lists,
            }),
    {
        if index >= self.config.hosts.len() {
            return false;
        }
        let ghost pre = *self;
        let _removed = self.config.hosts.remove(index);
        proof {
            assert(self.config@.hosts =~= pre.config@.hosts.remove(index as int));
            assert(self.wf());
        }
        self.clear_borrowed();
        proof {
            assert(self@ =~~= (StateView {
                config: SshConfigView {
                    global_options: old(self)@.config.global_options,
                    hosts: old(self)@.hosts().remove(index as int),
                },
                maps: drop_borrowed(old(self)@.maps),
                lists: old(self)@.lists,
            }));
        }
        true
    }

    /// Writes the boundary record of the host at `index` into
    /// `out_host` and returns true; on an out-of-range index returns
    /// false and leaves `out_host` untouched.
    ///
    /// The record's options-map handle names a freshly registered
    /// borrowed view of that host's unrecognized options; it stays
    /// live only until the host sequence is next mutated.
    pub fn get_host_by_index(&mut self, index: usize, out_host: &mut abi::Host) -> (r: bool)
        requires
            old(self).wf(),
        ensures
            final(self).wf(),
            r == (index < old(self)@.hosts().len()),
            !r ==> final(self)@ == old(self)@ && *final(out_host) == *old(out_host),
            r ==> {
                &&& final(self)@ == (StateView {
                    config: old(self)@.config,
                    maps: old(self)@.maps.push(
                        MapSlotView::Borrowed(old(self)@.hosts()[index as int].other),
                    ),
                    lists: old(self)@.lists,
                })
                &&& final(out_host)@ == encoded_record(
                    old(self)@.hosts()[index as int],
                    old(self)@.maps.len() as int,
                )
            },
    {
        if index >= self.config.hosts.len() {
            return false;
        }
        let copy = self.config.hosts[index].other.duplicate();
        let handle = OptionsMapHandle::from_index(self.maps.len());
        self.maps.push(MapSlot::Borrowed(copy));
        *out_host = encode_host(&self.config.hosts[index], handle);
        proof {
            assert(self.config@.hosts[index as int] == old(self)@.hosts()[index as int]);
            assert(self@ =~~= (StateView {
                config: old(self)@.config,
                maps: old(self)@.maps.push(
                    MapSlotView::Borrowed(old(self)@.hosts()[index as int].other),
                ),
                lists: old(self)@.lists,
            }));
        }
        true
    }

    /// Creates a fresh, empty options map owned by the caller; the
    /// returned handle stays live until the matching destroy call.
    pub fn create_options_map(&mut self) -> (r: OptionsMapHandle)
        requires
            old(self).wf(),
        ensures
            final(self).wf(),
            r.id() == old(self)@.maps.len(),
            final(self)@ == (StateView {
                config: old(self)@.config,
                maps: old(self)@.maps.push(
                    MapSlotView::Owned(Map::<Seq<char>, Seq<char>>::empty()),
                ),
                lists: old(self)@.lists,
            }),
    {
        let handle = OptionsMapHandle::from_index(self.maps.len());
        self.maps.push(MapSlot::Owned(OptionsMap::new()));
        proof {
            assert(self@ =~~= (StateView {
                config: old(self)@.config,
                maps: old(self)@.maps.push(
                    MapSlotView::Owned(Map::<Seq<char>, Seq<char>>::empty()),
                ),
                lists: old(self)@.lists,
            }));
        }
        handle
    }

    /// Destroys a map obtained from [`HostState::create_options_map`].
    /// Returns false, changing nothing, for any other handle: one
    /// already destroyed, one naming a borrowed view, or one never
    /// issued.
    pub fn destroy_options_map(&mut self, handle: OptionsMapHandle) -> (r: bool)
        requires
            old(self).wf(),
        ensures
            final(self).wf(),
            r == old(self)@.map_owned(handle.id()),
            !r ==> final(self)@ == old(self)@,
            r ==> final(self)@ == (StateView {
                config: old(self)@.config,
                maps: old(self)@.maps.update(handle.id(), MapSlotView::Free),
                lists: old(self)@.lists,
            }),
    {
        let idx = handle.index();
        if idx >= self.maps.len() {
            return false;
        }
        let is_owned = match &self.maps[idx] {
            MapSlot::Owned(_) => true,
            _ => false,
        };
        if !is_owned {
            return false;
        }
        self.maps[idx] = MapSlot::Free;
        proof {
            assert(self@ =~~= (StateView {
                config: old(self)@.config,
                maps: old(self)@.maps.update(handle.id(), MapSlotView::Free),
                lists: old(self)@.lists,
            }));
        }
        true
    }

    /// Creates a fresh, empty list; the handle stays live until the
    /// list is destroyed or handed back to the host.
    pub fn create_list(&mut self) -> (r: ListHandle)
        requires
            old(self).wf(),
        ensures
            final(self).wf(),
            r.id() == old(self)@.lists.len(),
            final(self)@ == (StateView {
                config: old(self)@.config,
                maps: old(self)@.maps,
                lists: old(self)@.lists.push(Some(Seq::<Seq<u8>>::empty())),
            }),
    {
        let handle = ListHandle::from_index(self.lists.len());
        self.lists.push(Some(List { v: Vec::new() }));
        proof {
            assert(self@ =~~= (StateView {
                config: old(self)@.config,
                maps: old(self)@.maps,
                lists: old(self)@.lists.push(Some(Seq::<Seq<u8>>::empty())),
            }));
        }
        handle
    }

    /// Destroys a live list; returns false, changing nothing, for a
    /// stale handle.
    pub fn destroy_list(&mut self, handle: ListHandle) -> (r: bool)
        requires
            old(self).wf(),
        ensures
            final(self).wf(),
            r == old(self)@.list_live(handle.id()),
            !r ==> final(self)@ == old(self)@,
            r ==> final(self)@ == (StateView {
                config: old(self)@.config,
                maps: old(self)@.maps,
                lists: old(self)@.lists.update(handle.id(), None::<Seq<Seq<u8>>>),
            }),
    {
        let idx = handle.index();
        if idx >= self.lists.len() {
            return false;
        }
        let taken = self.lists[idx].take();
        match taken {
            Some(_) => {
                proof {
                    assert(self@ =~~= (StateView {
                        config: old(self)@.config,
                        maps: old(self)@.maps,
                        lists: old(self)@.lists.update(handle.id(), None::<Seq<Seq<u8>>>),
                    }));
                }
                true
            },
            None => {
                proof {
                    assert(self@ =~~= old(self)@);
                }
                false
            },
        }
    }

    /// Copies `buffer` into a new entry at the end of the list; the
    /// source buffer is not retained.  Returns false, changing
    /// nothing, for a stale handle.
    pub fn append_to_list(&mut self, handle: ListHandle, buffer: &[u8]) -> (r: bool)
        requires
            old(self).wf(),
        ensures
            final(self).wf(),
            r == old(self)@.list_live(handle.id()),
            !r ==> final(self)@ == old(self)@,
            r ==> final(self)@ == (StateView {
                config: old(self)@.config,
                maps: old(self)@.maps,
                lists: old(self)@.lists.update(
                    handle.id(),
                    Some(old(self)@.list_value(handle.id()).push(buffer@)),
                ),
            }),
    {
        let idx = handle.index();
        if idx >= self.lists.len() {
            return false;
        }
        let copied: Vec<u8> = slice_to_vec(buffer);
        match &mut self.lists[idx] {
            Some(l) => {
                l.v.push(copied);
                proof {
                    assert(self@ =~~= (StateView {
                        config: old(self)@.config,
                        maps: old(self)@.maps,
                        lists: old(self)@.lists.update(
                            handle.id(),
                            Some(old(self)@.list_value(handle.id()).push(buffer@)),
                        ),
                    }));
                }
                true
            },
            None => {
                proof {
                    assert(self@ =~~= old(self)@);
                }
                false
            },
        }
    }

    /// Consumes the list a plugin returned from a selection call.
    ///
    /// A null return, the sentinel for "no opinion", consumes nothing.
    /// A live handle transfers ownership to the host: the slot is
    /// freed, and the buffers are decoded into owned texts, in order.
    /// A buffer that is not well-formed UTF-8 is rejected, but the
    /// list is still destroyed, since it already belongs to the host.
    pub fn take_selection_result(&mut self, ret: Option<ListHandle>) -> (r: Result<
        Option<Vec<String>>,
        MarshalError,
    >)
        requires
            old(self).wf(),
        ensures
            final(self).wf(),
            match ret {
                None => r matches Ok(v) && v is None && final(self)@ == old(self)@,
                Some(handle) => {
                    if old(self)@.list_live(handle.id()) {
                        &&& final(self)@ == (StateView {
                            config: old(self)@.config,
                            maps: old(self)@.maps,
                            lists: old(self)@.lists.update(handle.id(), None::<Seq<Seq<u8>>>),
                        })
                        &&& match r {
                            Ok(v) => v matches Some(texts) && decoded_entries(
                                old(self)@.list_value(handle.id()),
                            ) == Some(texts.deep_view()),
                            Err(e) => e == MarshalError::InvalidUtf8 && decoded_entries(
                                old(self)@.list_value(handle.id()),
                            ) is None,
                        }
                    } else {
                        r == Err::<Option<Vec<String>>, MarshalError>(MarshalError::StaleHandle)
                            && final(self)@ == old(self)@
                    }
                },
            },
    {
        let handle = match ret {
            None => {
                return Ok(None);
            },
            Some(h) => h,
        };
        let idx = handle.index();
        if idx >= self.lists.len() {
            return Err(MarshalError::StaleHandle);
        }
        let list = match self.lists[idx].take() {
            Some(l) => l,
            None => {
                proof {
                    assert(self@ =~~= old(self)@);
                }
                return Err(MarshalError::StaleHandle);
            },
        };
        proof {
            assert(self@ =~~= (StateView {
                config: old(self)@.config,
                maps: old(self)@.maps,
                lists: old(self)@.lists.update(handle.id(), None::<Seq<Seq<u8>>>),
            }));
            assert(old(self)@.list_value(handle.id()) == list@);
        }
        let n = list.v.len();
        let mut texts: Vec<String> = Vec::new();
        let mut i: usize = 0;
        while i < n
            invariant
                i <= n,
                n == list.v@.len(),
                self.wf(),
                ret == Some(handle),
                old(self)@.list_live(handle.id()),
                old(self)@.list_value(handle.id()) == list@,
                self@ == (StateView {
                    config: old(self)@.config,
                    maps: old(self)@.maps,
                    lists: old(self)@.lists.update(handle.id(), None::<Seq<Seq<u8>>>),
                }),
                forall|j: int| 0 <= j < i ==> valid_utf8(#[trigger] list@[j]),
                texts.deep_view().len() == i,
                forall|j: int|
                    0 <= j < i ==> texts.deep_view()[j] == decode_utf8(#[trigger] list@[j]),
            decreases n - i,
        {
            proof {
                assert(list@[i as int] == list.v@[i as int]@);
            }
            match decode_field(list.v[i].as_slice()) {
                Ok(s) => {
                    texts.push(s);
                },
                Err(_) => {
                    proof {
                        assert(!valid_utf8(list@[i as int]));
                        assert(decoded_entries(list@) is None);
                    }
                    return Err(MarshalError::InvalidUtf8);
                },
            }
            i += 1;
        }
        proof {
            assert(decoded_entries(list@) == Some(texts.deep_view())) by {
                assert(forall|j: int| 0 <= j < list@.len() ==> valid_utf8(#[trigger] list@[j]));
                assert(texts.deep_view() =~= list@.map_values(|b: Seq<u8>| decode_utf8(b)));
            }
        }
        Ok(Some(texts))
    }
}

} // verus!
