//! The comparison of the stdenvs before and after a change.

use crate::eval::{EvaluationResult, EvaluationResultView, TagDiff, TagDiffView};
use crate::nix::{EvalOutcome, EvalRequest, Nix, NixView, Operation};
use crate::probe::{identifier, identifier_of};
use crate::tagger::{left_out, lemma_tags_tell_platforms_apart, tag_of, tags_of, StdenvTagger};
use std::path::PathBuf;
use vstd::prelude::*;

verus! {

/// The platforms whose stdenv is compared, in the order in which they are
/// probed and reported.
#[derive(Debug, Clone, Copy, PartialEq, Eq, Structural)]
pub enum System {
    X8664Linux,
    X8664Darwin,
}

/// The two moments at which a stdenv is identified: on the target branch,
/// and once the change has been merged into it.
#[derive(Debug, Clone, Copy, PartialEq, Eq, Structural)]
pub enum StdenvFrom {
    Before,
    After,
}

/// Every platform, once, in the fixed order.
pub open spec fn platforms() -> Seq<System> {
    seq![System::X8664Linux, System::X8664Darwin]
}

impl System {
    /// The name by which the evaluator knows the platform.
    pub open spec fn triple(self) -> Seq<char> {
        match self {
            System::X8664Linux => "x86_64-linux"@,
            System::X8664Darwin => "x86_64-darwin"@,
        }
    }

    /// Every platform, once, in the fixed order.
    pub fn all() -> (systems: Vec<System>)
        ensures
            systems@ == platforms(),
    {
        let mut systems = Vec::new();
        systems.push(System::X8664Linux);
        systems.push(System::X8664Darwin);
        assert(systems@ =~= platforms());
        systems
    }

    /// The name by which the evaluator knows the platform.
    pub fn as_str(&self) -> (name: &'static str)
        ensures
            name@ == self.triple(),
    {
        match self {
            System::X8664Linux => "x86_64-linux",
            System::X8664Darwin => "x86_64-darwin",
        }
    }
}

/// Whether two results of a probe count as equal: both absent, or both
/// present with the same characters.
pub open spec fn agree(a: Option<Seq<char>>, b: Option<Seq<char>>) -> bool {
    match (a, b) {
        (None, None) => true,
        (Some(x), Some(y)) => x == y,
        _ => false,
    }
}

/// Whether two results of a probe count as equal.
pub fn same_identifier(a: &Option<String>, b: &Option<String>) -> (same: bool)
    ensures
        same == agree(a.deep_view(), b.deep_view()),
        same <==> (a is None && b is None) || (a is Some && b is Some && a->0@ == b->0@),
{
    match (a, b) {
        (None, None) => true,
        (Some(x), Some(y)) => *x == *y,
        _ => false,
    }
}

/// What a comparison has gathered so far: the evaluator's settings, the
/// checkout, and per platform the identifier found before and after.
pub ghost struct StdenvsView {
    pub nix: NixView,
    pub co: PathBuf,
    pub linux_before: Option<Seq<char>>,
    pub linux_after: Option<Seq<char>>,
    pub darwin_before: Option<Seq<char>>,
    pub darwin_after: Option<Seq<char>>,
}

impl StdenvsView {
    /// The identifier held for a platform at one of the two moments.
    pub open spec fn slot(self, system: System, from: StdenvFrom) -> Option<Seq<char>> {
        match (system, from) {
            (System::X8664Linux, StdenvFrom::Before) => self.linux_before,
            (System::X8664Linux, StdenvFrom::After) => self.linux_after,
            (System::X8664Darwin, StdenvFrom::Before) => self.darwin_before,
            (System::X8664Darwin, StdenvFrom::After) => self.darwin_after,
        }
    }

    /// The same state with one identifier replaced.
    pub open spec fn with_slot(
        self,
        system: System,
        from: StdenvFrom,
        found: Option<Seq<char>>,
    ) -> StdenvsView {
        match (system, from) {
            (System::X8664Linux, StdenvFrom::Before) => StdenvsView { linux_before: found, ..self },
            (System::X8664Linux, StdenvFrom::After) => StdenvsView { linux_after: found, ..self },
            (System::X8664Darwin, StdenvFrom::Before) => StdenvsView {
                darwin_before: found,
                ..self
            },
            (System::X8664Darwin, StdenvFrom::After) => StdenvsView { darwin_after: found, ..self },
        }
    }

    /// Whether the stdenv of a platform counts as changed.
    pub open spec fn differs(self, system: System) -> bool {
        !agree(self.slot(system, StdenvFrom::Before), self.slot(system, StdenvFrom::After))
    }

    /// `differs` as a predicate on platforms.
    pub open spec fn differing(self) -> spec_fn(System) -> bool {
        |system: System| self.differs(system)
    }

    /// The platforms whose stdenv counts as changed, in the fixed order.
    pub open spec fn changed(self) -> Seq<System> {
        platforms().filter(self.differing())
    }

    /// Whether no platform's stdenv counts as changed.
    pub open spec fn are_same(self) -> bool {
        forall|system: System| !self.differs(system)
    }

    /// The negation of `differs` as a predicate on platforms.
    pub open spec fn holding(self) -> spec_fn(System) -> bool {
        |system: System| !self.differs(system)
    }

    /// The platforms whose stdenv does not count as changed, in the fixed
    /// order.
    pub open spec fn unchanged(self) -> Seq<System> {
        platforms().filter(self.holding())
    }

    /// What the comparison reports: nothing where no stdenv changed, else
    /// the tags of the changed platforms to add and the tags of the others
    /// to delete.
    pub open spec fn report(self) -> EvaluationResultView {
        if self.are_same() {
            EvaluationResultView { tags: None }
        } else {
            EvaluationResultView {
                tags: Some(
                    TagDiffView { add: tags_of(self.changed()), delete: tags_of(self.unchanged()) },
                ),
            }
        }
    }
}

/// The arguments that make the evaluator look at the stdenv of the checkout
/// it runs in.
pub open spec fn stdenv_query() -> Seq<Seq<char>> {
    seq!["-f"@, "."@, "-A"@, "stdenv"@]
}

/// The place of a platform in the fixed order.
pub open spec fn rank(system: System) -> int {
    match system {
        System::X8664Linux => 0,
        System::X8664Darwin => 1,
    }
}

/// The comparison of the stdenvs before and after a change.
#[derive(Debug, PartialEq)]
pub struct Stdenvs {
    nix: Nix,
    co: PathBuf,
    linux_stdenv_before: Option<String>,
    linux_stdenv_after: Option<String>,
    darwin_stdenv_before: Option<String>,
    darwin_stdenv_after: Option<String>,
}

impl View for Stdenvs {
    type V = StdenvsView;

    closed spec fn view(&self) -> StdenvsView {
        StdenvsView {
            nix: self.nix@,
            co: self.co,
            linux_before: self.linux_stdenv_before.deep_view(),
            linux_after: self.linux_stdenv_after.deep_view(),
            darwin_before: self.darwin_stdenv_before.deep_view(),
            darwin_after: self.darwin_stdenv_after.deep_view(),
        }
    }
}

impl Stdenvs {
    /// A comparison that has identified nothing yet.
    pub fn new(nix: Nix, co: PathBuf) -> (stdenvs: Stdenvs)
        ensures
            stdenvs@ == (StdenvsView {
                nix: nix@,
                co: co,
                linux_before: None,
                linux_after: None,
                darwin_before: None,
                darwin_after: None,
            }),
    {
        Stdenvs {
            nix: nix,
            co: co,
            linux_stdenv_before: None,
            linux_stdenv_after: None,
            darwin_stdenv_before: None,
            darwin_stdenv_after: None,
        }
    }

    /// The identifier held for a platform at one of the two moments.
    pub fn stdenv(&self, system: System, from: StdenvFrom) -> (found: &Option<String>)
        ensures
            found.deep_view() == self@.slot(system, from),
    {
        match (system, from) {
            (System::X8664Linux, StdenvFrom::Before) => &self.linux_stdenv_before,
            (System::X8664Linux, StdenvFrom::After) => &self.linux_stdenv_after,
            (System::X8664Darwin, StdenvFrom::Before) => &self.darwin_stdenv_before,
            (System::X8664Darwin, StdenvFrom::After) => &self.darwin_stdenv_after,
        }
    }

    /// The platforms whose stdenv counts as changed: those for which the
    /// identifier found before and the one found after do not agree, in the
    /// fixed order of the platforms. The comparison is left as it was, so
    /// that asking again gives the same answer.
    pub fn changed(&self) -> (changed: Vec<System>)
        ensures
            changed@ == self@.changed(),
    {
        let systems = System::all();
        let mut changed: Vec<System> = Vec::new();
        proof {
            reveal_with_fuel(Seq::filter, 1);
            assert(platforms().take(0) =~= Seq::<System>::empty());
        }
        for i in 0..systems.len()
            invariant
                systems@ == platforms(),
                changed@ == platforms().take(i as int).filter(self@.differing()),
        {
            let system = systems[i];
            let before = self.stdenv(system, StdenvFrom::Before);
            let after = self.stdenv(system, StdenvFrom::After);
            proof {
                assert(platforms().take(i + 1) =~= platforms().take(i as int).push(system));
                platforms().take(i as int).lemma_filter_push(system, self@.differing());
            }
            if !same_identifier(before, after) {
                changed.push(system);
            }
        }
        assert(platforms().take(systems.len() as int) =~= platforms());
        changed
    }

    /// Whether no platform's stdenv counts as changed.
    pub fn are_same(&self) -> (same: bool)
        ensures
            same == self@.are_same(),
            same == (self@.changed().len() == 0),
    {
        proof {
            lemma_changed_empty_iff_same(self@);
        }
        self.changed().len() == 0
    }

    /// The call of the evaluator that identifies the stdenv of `system` in
    /// the checkout: a query for the outputs of the stdenv, under the
    /// settings of this comparison aimed at `system`.
    pub fn request(&self, system: System) -> (request: EvalRequest<'_>)
        ensures
            request.nix@ == (NixView { system: system.triple(), ..self@.nix }),
            request.operation == Operation::QueryPackagesOutputs,
            *request.checkout == self@.co,
            request.args.deep_view() == stdenv_query(),
            request.keep_stdout,
    {
        let mut args: Vec<String> = Vec::new();
        args.push("-f".to_owned());
        args.push(".".to_owned());
        args.push("-A".to_owned());
        args.push("stdenv".to_owned());
        assert(args.deep_view() =~= stdenv_query());
        EvalRequest {
            nix: self.nix.with_system(system.as_str().to_owned()),
            operation: Operation::QueryPackagesOutputs,
            checkout: &self.co,
            args,
            keep_stdout: true,
        }
    }

    /// Takes down what the evaluator found for `system` at the moment `from`:
    /// the identifier that `outcome` stands for replaces what was held.
    pub fn identify(&mut self, system: System, from: StdenvFrom, outcome: EvalOutcome)
        ensures
            final(self)@ == old(self)@.with_slot(system, from, identifier_of(outcome)),
    {
        let found = identifier(&outcome);
        match (system, from) {
            (System::X8664Linux, StdenvFrom::Before) => {
                self.linux_stdenv_before = found;
            },
            (System::X8664Linux, StdenvFrom::After) => {
                self.linux_stdenv_after = found;
            },
            (System::X8664Darwin, StdenvFrom::Before) => {
                self.darwin_stdenv_before = found;
            },
            (System::X8664Darwin, StdenvFrom::After) => {
                self.darwin_stdenv_after = found;
            },
        }
    }

    /// Takes down what the evaluator found on the target branch, for every
    /// platform.
    pub fn identify_before(&mut self, linux: EvalOutcome, darwin: EvalOutcome)
        ensures
            final(self)@ == old(self)@.with_slot(
                System::X8664Linux,
                StdenvFrom::Before,
                identifier_of(linux),
            ).with_slot(System::X8664Darwin, StdenvFrom::Before, identifier_of(darwin)),
    {
        self.identify(System::X8664Linux, StdenvFrom::Before, linux);
        self.identify(System::X8664Darwin, StdenvFrom::Before, darwin);
    }

    /// Takes down what the evaluator found after the merge, for every
    /// platform.
    pub fn identify_after(&mut self, linux: EvalOutcome, darwin: EvalOutcome)
        ensures
            final(self)@ == old(self)@.with_slot(
                System::X8664Linux,
                StdenvFrom::After,
                identifier_of(linux),
            ).with_slot(System::X8664Darwin, StdenvFrom::After, identifier_of(darwin)),
    {
        self.identify(System::X8664Linux, StdenvFrom::After, linux);
        self.identify(System::X8664Darwin, StdenvFrom::After, darwin);
    }

    /// What to announce before the first phase.
    pub fn before_on_target_branch_message(&self) -> (message: String)
        ensures
            message@ == "Identifying target branch's stdenvs"@,
    {
        "Identifying target branch's stdenvs".to_owned()
    }

    /// The first phase: the checkout stands on the target branch, and the
    /// evaluator has been asked about it for every platform.
    pub fn on_target_branch(&mut self, linux: EvalOutcome, darwin: EvalOutcome)
        ensures
            final(self)@ == old(self)@.with_slot(
                System::X8664Linux,
                StdenvFrom::Before,
                identifier_of(linux),
            ).with_slot(System::X8664Darwin, StdenvFrom::Before, identifier_of(darwin)),
    {
        self.identify_before(linux, darwin);
    }

    /// What to announce before the second phase.
    pub fn before_after_merge_message(&self) -> (message: String)
        ensures
            message@ == "Identifying new stdenvs"@,
    {
        "Identifying new stdenvs".to_owned()
    }

    /// The second phase: the change has been merged into the checkout, and
    /// the evaluator has been asked about it for every platform.
    pub fn after_merge(&mut self, linux: EvalOutcome, darwin: EvalOutcome)
        ensures
            final(self)@ == old(self)@.with_slot(
                System::X8664Linux,
                StdenvFrom::After,
                identifier_of(linux),
            ).with_slot(System::X8664Darwin, StdenvFrom::After, identifier_of(darwin)),
    {
        self.identify_after(linux, darwin);
    }

    /// Ends the comparison with its report: no tags where the stdenvs are
    /// the same, else what the tagger makes of the changed platforms.
    pub fn results(self) -> (report: EvaluationResult)
        ensures
            report@ == self@.report(),
    {
        if self.are_same() {
            EvaluationResult { tags: None }
        } else {
            let mut stdenvtagger = StdenvTagger::new();
            stdenvtagger.changed(self.changed());
            proof {
                assert(stdenvtagger@ =~= self@.changed());
                lemma_left_out_of_changed(self@);
            }
            EvaluationResult {
                tags: Some(
                    TagDiff {
                        add: stdenvtagger.tags_to_add(),
                        delete: stdenvtagger.tags_to_remove(),
                    },
                ),
            }
        }
    }
}

/// Two predicates that agree on every element of a sequence leave the same
/// elements of it.
proof fn lemma_filter_agree<A>(s: Seq<A>, p: spec_fn(A) -> bool, q: spec_fn(A) -> bool)
    requires
        forall|i: int| 0 <= i < s.len() ==> p(#[trigger] s[i]) == q(s[i]),
    ensures
        s.filter(p) == s.filter(q),
    decreases s.len(),
{
    reveal(Seq::filter);
    if s.len() > 0 {
        lemma_filter_agree(s.drop_last(), p, q);
    }
}

/// The changed platforms, written out platform by platform.
pub proof fn lemma_changed_by_cases(v: StdenvsView)
    ensures
        v.changed() == (if v.differs(System::X8664Linux) {
            seq![System::X8664Linux]
        } else {
            seq![]
        }) + (if v.differs(System::X8664Darwin) {
            seq![System::X8664Darwin]
        } else {
            seq![]
        }),
{
    let first = seq![System::X8664Linux];
    assert(platforms() =~= first.push(System::X8664Darwin));
    assert(first =~= Seq::<System>::empty().push(System::X8664Linux));
    reveal_with_fuel(Seq::filter, 1);
    Seq::<System>::empty().lemma_filter_push(System::X8664Linux, v.differing());
    first.lemma_filter_push(System::X8664Darwin, v.differing());
    assert(v.changed() =~= (if v.differs(System::X8664Linux) {
        seq![System::X8664Linux]
    } else {
        seq![]
    }) + (if v.differs(System::X8664Darwin) {
        seq![System::X8664Darwin]
    } else {
        seq![]
    }));
}

/// The platforms that are none of the changed ones are those that do not
/// differ.
proof fn lemma_left_out_of_changed(v: StdenvsView)
    ensures
        platforms().filter(left_out(v.changed())) == v.unchanged(),
{
    lemma_changed_by_cases(v);
    assert forall|i: int| 0 <= i < platforms().len() implies left_out(v.changed())(
        #[trigger] platforms()[i],
    ) == v.holding()(platforms()[i]) by {
        let system = platforms()[i];
        if v.differs(system) {
            if system == System::X8664Linux {
                assert(v.changed()[0] == system);
            } else {
                assert(v.changed()[v.changed().len() - 1] == system);
            }
        }
    }
    lemma_filter_agree(platforms(), left_out(v.changed()), v.holding());
}

/// The comparator's equality is equality of optional texts: two results
/// count as equal if and only if both are absent, or both are present and
/// hold the same characters. An absent result never counts as equal to a
/// present one.
pub proof fn lemma_agree_is_equality(a: Option<Seq<char>>, b: Option<Seq<char>>)
    ensures
        agree(a, b) <==> (a is None && b is None) || (a is Some && b is Some && a->0 == b->0),
        agree(a, b) <==> a == b,
        (a is None) != (b is None) ==> !agree(a, b),
{
}

/// A platform for which an identifier is present at one moment and absent
/// at the other is among the changed ones.
pub proof fn lemma_absent_against_present_is_changed(v: StdenvsView, system: System)
    requires
        (v.slot(system, StdenvFrom::Before) is None) != (v.slot(system, StdenvFrom::After) is None),
    ensures
        v.differs(system),
        v.changed().contains(system),
        !v.are_same(),
{
    lemma_changed_holds_what_differs(v);
}

/// The changed platforms are exactly those that differ, each of them once.
pub proof fn lemma_changed_holds_what_differs(v: StdenvsView)
    ensures
        forall|system: System| v.changed().contains(system) <==> v.differs(system),
        v.changed().no_duplicates(),
{
    lemma_changed_by_cases(v);
    assert forall|system: System| v.changed().contains(system) <==> v.differs(system) by {
        if v.differs(system) {
            if system == System::X8664Linux {
                assert(v.changed()[0] == system);
            } else {
                assert(v.changed()[v.changed().len() - 1] == system);
            }
        }
    }
}

/// No platform is reported as changed if and only if the stdenvs are the
/// same.
pub proof fn lemma_changed_empty_iff_same(v: StdenvsView)
    ensures
        v.changed().len() == 0 <==> v.are_same(),
{
    lemma_changed_by_cases(v);
    if v.changed().len() == 0 {
        assert forall|system: System| !v.differs(system) by {
            if system == System::X8664Linux {
            } else {
            }
        }
    }
}

/// The changed platforms stand in the fixed order of the platforms,
/// whatever was identified and in whatever order.
pub proof fn lemma_changed_in_fixed_order(v: StdenvsView)
    ensures
        forall|i: int, j: int|
            0 <= i < j < v.changed().len() ==> rank(#[trigger] v.changed()[i]) < rank(
                #[trigger] v.changed()[j],
            ),
        forall|system: System| platforms()[rank(system)] == system,
{
    lemma_changed_by_cases(v);
}

/// Where a change is reported, the tag of every platform is sorted into one
/// of the two lists: added if the platform's stdenv differs, deleted if it
/// does not, and never both.
pub proof fn lemma_report_sorts_every_tag(v: StdenvsView)
    ensures
        v.report().tags is None <==> v.are_same(),
        v.report().tags matches Some(diff) ==> forall|system: System|
            #![trigger tag_of(system)]
            (diff.add.contains(tag_of(system)) <==> v.differs(system)) && (diff.delete.contains(
                tag_of(system),
            ) <==> !v.differs(system)),
{
    if !v.are_same() {
        let diff = v.report().tags->0;
        lemma_changed_holds_what_differs(v);
        lemma_unchanged_holds_what_agrees(v);
        assert forall|system: System|
            #![trigger tag_of(system)]
            (diff.add.contains(tag_of(system)) <==> v.differs(system)) && (diff.delete.contains(
                tag_of(system),
            ) <==> !v.differs(system)) by {
            lemma_tags_hold_what_platforms_hold(v.changed(), system);
            lemma_tags_hold_what_platforms_hold(v.unchanged(), system);
        }
    }
}

/// The unchanged platforms are exactly those that do not differ.
proof fn lemma_unchanged_holds_what_agrees(v: StdenvsView)
    ensures
        forall|system: System| v.unchanged().contains(system) <==> !v.differs(system),
{
    let first = seq![System::X8664Linux];
    assert(platforms() =~= first.push(System::X8664Darwin));
    assert(first =~= Seq::<System>::empty().push(System::X8664Linux));
    reveal_with_fuel(Seq::filter, 1);
    Seq::<System>::empty().lemma_filter_push(System::X8664Linux, v.holding());
    first.lemma_filter_push(System::X8664Darwin, v.holding());
    let unchanged = v.unchanged();
    assert forall|system: System| unchanged.contains(system) <==> !v.differs(system) by {
        if !v.differs(system) {
            if system == System::X8664Linux {
                assert(unchanged[0] == system);
            } else {
                assert(unchanged[unchanged.len() - 1] == system);
            }
        }
    }
}

/// The tags of some platforms hold the tag of a platform exactly when the
/// platform is one of them.
proof fn lemma_tags_hold_what_platforms_hold(systems: Seq<System>, system: System)
    ensures
        tags_of(systems).contains(tag_of(system)) <==> systems.contains(system),
{
    lemma_tags_tell_platforms_apart();
    let tags = tags_of(systems);
    if systems.contains(system) {
        let i = choose|i: int| 0 <= i < systems.len() && systems[i] == system;
        assert(tags[i] == tag_of(system));
    }
    if tags.contains(tag_of(system)) {
        let i = choose|i: int| 0 <= i < tags.len() && tags[i] == tag_of(system);
        assert(tag_of(systems[i]) == tag_of(system));
        assert(systems[i] == system);
    }
}

/// Identifying at two different places, in either order, leads to the same
/// state.
pub proof fn lemma_identify_commutes(
    v: StdenvsView,
    system: System,
    from: StdenvFrom,
    found: Option<Seq<char>>,
    other_system: System,
    other_from: StdenvFrom,
    other_found: Option<Seq<char>>,
)
    requires
        system != other_system || from != other_from,
    ensures
        v.with_slot(system, from, found).with_slot(other_system, other_from, other_found)
            == v.with_slot(other_system, other_from, other_found).with_slot(system, from, found),
{
}

/// What is reported depends on the identifiers alone: two states that hold
/// the same identifiers give the same changed platforms, the same verdict
/// and the same report, so that asking again, with nothing identified in
/// between, gives the same answers.
pub proof fn lemma_answers_rest_on_identifiers(a: StdenvsView, b: StdenvsView)
    requires
        forall|system: System, from: StdenvFrom|
            a.slot(system, from) == b.slot(system, from),
    ensures
        a.changed() == b.changed(),
        a.are_same() == b.are_same(),
        a.report() == b.report(),
{
    assert forall|system: System| a.differs(system) == b.differs(system) by {
        assert(a.slot(system, StdenvFrom::Before) == b.slot(system, StdenvFrom::Before));
        assert(a.slot(system, StdenvFrom::After) == b.slot(system, StdenvFrom::After));
    }
    lemma_filter_agree(platforms(), a.differing(), b.differing());
    lemma_filter_agree(platforms(), a.holding(), b.holding());
}

} // verus!
