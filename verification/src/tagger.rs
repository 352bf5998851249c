//! From platforms whose stdenv changed to the tags that say so.

use crate::stdenvs::{platforms, System};
use vstd::prelude::*;

verus! {

/// The tag that announces a rebuild of a platform's stdenv.
pub open spec fn tag_of(system: System) -> Seq<char> {
    match system {
        System::X8664Linux => "10.rebuild-linux-stdenv"@,
        System::X8664Darwin => "10.rebuild-darwin-stdenv"@,
    }
}

/// The tags of a sequence of platforms, one for one.
pub open spec fn tags_of(systems: Seq<System>) -> Seq<Seq<char>> {
    systems.map_values(|system: System| tag_of(system))
}

/// Whether a platform is none of `selected`.
pub open spec fn left_out(selected: Seq<System>) -> spec_fn(System) -> bool {
    |system: System| !selected.contains(system)
}

/// The tag that announces a rebuild of a platform's stdenv.
pub fn tag(system: System) -> (name: &'static str)
    ensures
        name@ == tag_of(system),
{
    match system {
        System::X8664Linux => "10.rebuild-linux-stdenv",
        System::X8664Darwin => "10.rebuild-darwin-stdenv",
    }
}

/// No two platforms share a tag.
pub proof fn lemma_tags_tell_platforms_apart()
    ensures
        forall|a: System, b: System| tag_of(a) == tag_of(b) ==> a == b,
{
    reveal_strlit("10.rebuild-linux-stdenv");
    reveal_strlit("10.rebuild-darwin-stdenv");
    assert("10.rebuild-linux-stdenv"@[11] != "10.rebuild-darwin-stdenv"@[11]);
}

/// Turns the platforms whose stdenv changed into tags. Its view is the
/// sequence of platforms it has been told of.
#[derive(Debug)]
pub struct StdenvTagger {
    selected: Vec<System>,
}

impl View for StdenvTagger {
    type V = Seq<System>;

    closed spec fn view(&self) -> Seq<System> {
        self.selected@
    }
}

impl StdenvTagger {
    /// A tagger that has been told of no platform.
    pub fn new() -> (tagger: StdenvTagger)
        ensures
            tagger@ == Seq::<System>::empty(),
    {
        StdenvTagger { selected: Vec::new() }
    }

    /// Takes note of platforms whose stdenv changed.
    pub fn changed(&mut self, systems: Vec<System>)
        ensures
            final(self)@ == old(self)@ + systems@,
    {
        let mut systems = systems;
        self.selected.append(&mut systems);
    }

    /// Whether the tagger has been told of `system`.
    pub fn is_selected(&self, system: System) -> (found: bool)
        ensures
            found == self@.contains(system),
    {
        for i in 0..self.selected.len()
            invariant
                forall|j: int| 0 <= j < i ==> self.selected@[j] != system,
        {
            if self.selected[i] == system {
                return true;
            }
        }
        false
    }

    /// The tags of the platforms that the tagger has been told of, in the
    /// order in which it was told.
    pub fn tags_to_add(&self) -> (tags: Vec<String>)
        ensures
            tags.deep_view() == tags_of(self@),
    {
        let mut tags: Vec<String> = Vec::new();
        for i in 0..self.selected.len()
            invariant
                tags.deep_view() == tags_of(self.selected@.take(i as int)),
        {
            let ghost before = tags.deep_view();
            tags.push(tag(self.selected[i]).to_owned());
            assert(tags.deep_view() =~= before.push(tag_of(self.selected@[i as int])));
            assert(self.selected@.take(i + 1) =~= self.selected@.take(i as int).push(
                self.selected@[i as int],
            ));
        }
        assert(self.selected@.take(self.selected.len() as int) =~= self.selected@);
        tags
    }

    /// The tags of the platforms that the tagger has not been told of, in
    /// the fixed order of the platforms.
    pub fn tags_to_remove(&self) -> (tags: Vec<String>)
        ensures
            tags.deep_view() == tags_of(platforms().filter(left_out(self@))),
    {
        let systems = System::all();
        let mut tags: Vec<String> = Vec::new();
        proof {
            reveal_with_fuel(Seq::filter, 1);
            assert(platforms().take(0) =~= Seq::<System>::empty());
        }
        for i in 0..systems.len()
            invariant
                systems@ == platforms(),
                tags.deep_view() == tags_of(platforms().take(i as int).filter(left_out(self@))),
        {
            let system = systems[i];
            proof {
                assert(platforms().take(i + 1) =~= platforms().take(i as int).push(system));
                platforms().take(i as int).lemma_filter_push(system, left_out(self@));
            }
            if !self.is_selected(system) {
                let ghost before = tags.deep_view();
                tags.push(tag(system).to_owned());
                assert(tags.deep_view() =~= before.push(tag_of(system)));
            }
        }
        assert(platforms().take(systems.len() as int) =~= platforms());
        tags
    }
}

} // verus!
