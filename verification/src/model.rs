//! Native representation of the host configuration.
//!
//! These are the owned, variable-length values the host process works
//! with.  Plugins never see their layout; they reach them only through
//! the mutation API in [`crate::mutation`].

use vstd::prelude::*;

verus! {

/// View of a sequence of owned string pairs as a sequence of character
/// sequences.
pub open spec fn entry_views(entries: Seq<(String, String)>) -> Seq<(Seq<char>, Seq<char>)> {
    entries.map_values(|e: (String, String)| (e.0@, e.1@))
}

/// The mapping described by a sequence of key/value entries; a later
/// entry for a key overrides an earlier one.
pub open spec fn map_of_entries(entries: Seq<(Seq<char>, Seq<char>)>) -> Map<
    Seq<char>,
    Seq<char>,
>
    decreases entries.len(),
{
    if entries.len() == 0 {
        Map::empty()
    } else {
        map_of_entries(entries.drop_last()).insert(entries.last().0, entries.last().1)
    }
}

/// No two entries share a key.
pub open spec fn unique_keys(entries: Seq<(Seq<char>, Seq<char>)>) -> bool {
    forall|i: int, j: int| 0 <= i < j < entries.len() ==> entries[i].0 != entries[j].0
}

pub proof fn lemma_map_of_entries_contains(entries: Seq<(Seq<char>, Seq<char>)>, k: Seq<char>)
    ensures
        map_of_entries(entries).dom().contains(k) <==> exists|i: int|
            0 <= i < entries.len() && (#[trigger] entries[i]).0 == k,
    decreases entries.len(),
{
    if entries.len() > 0 {
        let prefix = entries.drop_last();
        let n = entries.len() as int;
        lemma_map_of_entries_contains(prefix, k);
        assert(forall|i: int| 0 <= i < n - 1 ==> (#[trigger] entries[i]) == prefix[i]);
        if map_of_entries(entries).dom().contains(k) {
            if entries.last().0 == k {
                assert(entries[n - 1].0 == k);
            } else {
                let i = choose|i: int| 0 <= i < prefix.len() && (#[trigger] prefix[i]).0 == k;
                assert(entries[i].0 == k);
            }
        }
        if exists|i: int| 0 <= i < n && (#[trigger] entries[i]).0 == k {
            let i = choose|i: int| 0 <= i < n && (#[trigger] entries[i]).0 == k;
            if i < n - 1 {
                assert(prefix[i].0 == k);
            }
        }
    }
}

pub proof fn lemma_map_of_entries_finite(entries: Seq<(Seq<char>, Seq<char>)>)
    ensures
        map_of_entries(entries).dom().finite(),
    decreases entries.len(),
{
    if entries.len() > 0 {
        lemma_map_of_entries_finite(entries.drop_last());
    }
}

pub proof fn lemma_map_of_entries_card(entries: Seq<(Seq<char>, Seq<char>)>)
    requires
        unique_keys(entries),
    ensures
        map_of_entries(entries).dom().finite(),
        map_of_entries(entries).dom().len() == entries.len(),
    decreases entries.len(),
{
    lemma_map_of_entries_finite(entries);
    if entries.len() > 0 {
        let prefix = entries.drop_last();
        assert(unique_keys(prefix)) by {
            assert(forall|i: int|
                0 <= i < prefix.len() ==> (#[trigger] prefix[i]) == entries[i]);
        }
        lemma_map_of_entries_card(prefix);
        lemma_map_of_entries_contains(prefix, entries.last().0);
        assert(forall|i: int|
            0 <= i < prefix.len() ==> (#[trigger] prefix[i]).0 != entries.last().0);
    }
}

/// Replacing the value of the entry that already holds key `k` acts on
/// the mapping as an insert of `k`.
pub proof fn lemma_map_of_entries_update(
    entries: Seq<(Seq<char>, Seq<char>)>,
    i: int,
    v: Seq<char>,
)
    requires
        unique_keys(entries),
        0 <= i < entries.len(),
    ensures
        map_of_entries(entries.update(i, (entries[i].0, v))) =~= map_of_entries(entries).insert(
            entries[i].0,
            v,
        ),
    decreases entries.len(),
{
    let updated = entries.update(i, (entries[i].0, v));
    if i == entries.len() - 1 {
        assert(updated.drop_last() =~= entries.drop_last());
    } else {
        let prefix = entries.drop_last();
        assert(unique_keys(prefix)) by {
            assert(forall|j: int|
                0 <= j < prefix.len() ==> (#[trigger] prefix[j]) == entries[j]);
        }
        assert(prefix[i] == entries[i]);
        lemma_map_of_entries_update(prefix, i, v);
        assert(updated.drop_last() =~= prefix.update(i, (entries[i].0, v)));
        assert(updated.last() == entries.last());
        assert(entries.last().0 != entries[i].0);
    }
}

/// An ordered string-to-string mapping with unique keys, the native
/// form of both the global options of a configuration and the
/// unrecognized options of a single host.  Entries keep their first
/// insertion position; inserting an existing key replaces its value in
/// place.
#[derive(Debug, PartialEq, Eq)]
pub struct OptionsMap {
    entries: Vec<(String, String)>,
}

impl View for OptionsMap {
    type V = Map<Seq<char>, Seq<char>>;

    closed spec fn view(&self) -> Map<Seq<char>, Seq<char>> {
        map_of_entries(entry_views(self.entries@))
    }
}

impl OptionsMap {
    /// Keys are pairwise distinct; established by the constructor and
    /// preserved by every operation.
    pub closed spec fn wf(&self) -> bool {
        unique_keys(entry_views(self.entries@))
    }

    pub fn new() -> (r: OptionsMap)
        ensures
            r.wf(),
            r@ == Map::<Seq<char>, Seq<char>>::empty(),
    {
        OptionsMap { entries: Vec::new() }
    }

    /// Number of entries held.
    pub fn len(&self) -> (r: usize)
        requires
            self.wf(),
        ensures
            r == self@.dom().len(),
    {
        proof {
            lemma_map_of_entries_card(entry_views(self.entries@));
        }
        self.entries.len()
    }

    /// Binds `key` to `value`, replacing the value in place if the key
    /// is already present.
    pub fn insert(&mut self, key: String, value: String)
        requires
            old(self).wf(),
        ensures
            final(self).wf(),
            final(self)@ == old(self)@.insert(key@, value@),
    {
        let ghost orig = entry_views(self.entries@);
        let n = self.entries.len();
        let mut i: usize = 0;
        while i < n
            invariant
                *self == *old(self),
                orig == entry_views(self.entries@),
                n == self.entries@.len(),
                n == orig.len(),
                unique_keys(orig),
                old(self).wf(),
                i <= n,
                forall|j: int| 0 <= j < i ==> orig[j].0 != key@,
            decreases n - i,
        {
            if self.entries[i].0 == key {
                proof {
                    assert(orig.len() == self.entries@.len());
                    assert(orig[i as int].0 == key@);
                    lemma_map_of_entries_update(orig, i as int, value@);
                }
                let ghost pre = self.entries@;
                self.entries[i] = (key, value);
                proof {
                    assert(self.entries@ == pre.update(i as int, (key, value)));
                    assert(entry_views(self.entries@) =~= orig.update(
                        i as int,
                        (orig[i as int].0, value@),
                    ));
                    assert(unique_keys(entry_views(self.entries@)));
                }
                return ;
            }
            i += 1;
        }
        self.entries.push((key, value));
        proof {
            assert(entry_views(self.entries@) =~= orig.push((key@, value@)));
            assert(entry_views(self.entries@).drop_last() =~= orig);
            assert(unique_keys(entry_views(self.entries@)));
        }
    }

    /// An independent copy holding the same entries.
    pub fn duplicate(&self) -> (r: OptionsMap)
        requires
            self.wf(),
        ensures
            r.wf(),
            r@ == self@,
    {
        let mut out: Vec<(String, String)> = Vec::new();
        let n = self.entries.len();
        let mut i: usize = 0;
        while i < n
            invariant
                n == self.entries@.len(),
                i <= n,
                out@ =~= self.entries@.subrange(0, i as int),
            decreases n - i,
        {
            let key = self.entries[i].0.clone();
            let value = self.entries[i].1.clone();
            out.push((key, value));
            i += 1;
        }
        proof {
            assert(out@ =~= self.entries@);
        }
        OptionsMap { entries: out }
    }
}

impl Default for OptionsMap {
    fn default() -> (r: OptionsMap)
        ensures
            r.wf(),
            r@ == Map::<Seq<char>, Seq<char>>::empty(),
    {
        OptionsMap::new()
    }
}

/// Mathematical value of a [`Host`].
#[verifier::ext_equal]
pub ghost struct HostView {
    pub name: Seq<char>,
    pub host_name: Option<Seq<char>>,
    pub user: Option<Seq<char>>,
    pub other: Map<Seq<char>, Seq<char>>,
}

/// One host entry of the configuration: a required name (display label
/// and default connection target), an optional resolved host name, an
/// optional user name, and the mapping of every unrecognized option.
#[derive(Debug, PartialEq, Eq)]
pub struct Host {
    pub name: String,
    pub host_name: Option<String>,
    pub user: Option<String>,
    pub other: OptionsMap,
}

impl View for Host {
    type V = HostView;

    open spec fn view(&self) -> HostView {
        HostView {
            name: self.name@,
            host_name: self.host_name.deep_view(),
            user: self.user.deep_view(),
            other: self.other@,
        }
    }
}

impl DeepView for Host {
    type V = HostView;

    open spec fn deep_view(&self) -> HostView {
        self.view()
    }
}

impl Host {
    pub open spec fn wf(&self) -> bool {
        self.other.wf()
    }
}

impl Default for Host {
    fn default() -> (r: Host)
        ensures
            r.wf(),
            r@.name == Seq::<char>::empty(),
            r@.host_name is None,
            r@.user is None,
            r@.other == Map::<Seq<char>, Seq<char>>::empty(),
    {
        Host { name: String::new(), host_name: None, user: None, other: OptionsMap::new() }
    }
}

/// Mathematical value of an [`SshConfig`].
#[verifier::ext_equal]
pub ghost struct SshConfigView {
    pub global_options: Map<Seq<char>, Seq<char>>,
    pub hosts: Seq<HostView>,
}

/// The host configuration: the global option mapping plus the ordered
/// sequence of host entries.  Owned by the host process for its entire
/// lifetime and mutated only through the mutation API.
#[derive(Debug, PartialEq, Eq)]
pub struct SshConfig {
    pub global_options: OptionsMap,
    pub hosts: Vec<Host>,
}

impl View for SshConfig {
    type V = SshConfigView;

    open spec fn view(&self) -> SshConfigView {
        SshConfigView { global_options: self.global_options@, hosts: self.hosts.deep_view() }
    }
}

impl SshConfig {
    pub open spec fn wf(&self) -> bool {
        &&& self.global_options.wf()
        &&& forall|i: int| 0 <= i < self.hosts@.len() ==> (#[trigger] self.hosts@[i]).wf()
    }
}

impl Default for SshConfig {
    fn default() -> (r: SshConfig)
        ensures
            r.wf(),
            r@.global_options == Map::<Seq<char>, Seq<char>>::empty(),
            r@.hosts == Seq::<HostView>::empty(),
    {
        SshConfig { global_options: OptionsMap::new(), hosts: Vec::new() }
    }
}

} // verus!
