//! Which windows the switcher walks, and in which direction.

use vstd::prelude::*;

verus! {

/// The windows that the switcher considers.
#[derive(Clone, Copy, Debug, PartialEq, Eq, Hash, Structural)]
pub enum MruScope {
    /// All windows.
    All,
    /// Windows on the active output.
    Output,
    /// Windows on the active workspace.
    Workspace,
}

/// A further restriction of the windows in scope.
#[derive(Clone, Copy, Debug, PartialEq, Eq, Hash, Structural)]
pub enum MruFilter {
    /// No restriction.
    Any,
    /// Windows of the application that the selected window belongs to.
    AppId,
}

/// The direction of a walk.
#[derive(Clone, Copy, Debug, PartialEq, Eq, Hash, Structural)]
pub enum MruDirection {
    /// Towards windows that were used less recently.
    Forward,
    /// Towards windows that were used more recently.
    Backward,
}

impl Default for MruScope {
    fn default() -> (scope: MruScope)
        ensures
            scope == MruScope::All,
    {
        MruScope::All
    }
}

/// The order in which scopes are cycled through.
pub open spec fn scope_order() -> Seq<MruScope> {
    seq![MruScope::All, MruScope::Workspace, MruScope::Output]
}

/// The order in which scopes are cycled through.
pub fn scope_cycle() -> (scopes: Vec<MruScope>)
    ensures
        scopes@ == scope_order(),
{
    let scopes: Vec<MruScope> = vec![MruScope::All, MruScope::Workspace, MruScope::Output];
    assert(scopes@ =~= scope_order());
    scopes
}

/// Types for which there is a finite set of values that can be cycled through.
pub trait MruCycle: Sized {
    fn cycle(&self, direction: MruDirection) -> Self;
}

impl MruScope {
    /// The scope one step further in the given direction, around the end.
    pub open spec fn cycled(self, direction: MruDirection) -> MruScope {
        let p = scope_order().index_of(self);
        match direction {
            MruDirection::Forward => scope_order()[(p + 1) % 3],
            MruDirection::Backward => scope_order()[(p + 2) % 3],
        }
    }

    /// Where each scope stands in the cycle.
    pub proof fn lemma_order(self)
        ensures
            scope_order().index_of(self) == match self {
                MruScope::All => 0int,
                MruScope::Workspace => 1,
                MruScope::Output => 2,
            },
    {
        let order = scope_order();
        assert(order[0] == MruScope::All && order[1] == MruScope::Workspace && order[2]
            == MruScope::Output);
        let p = order.index_of(self);
        assert(order.contains(self));
        assert(0 <= p < 3 && order[p] == self);
    }

    /// The number of a scope among the scope panels.
    pub open spec fn spec_index(self) -> usize {
        match self {
            MruScope::All => 0,
            MruScope::Output => 1,
            MruScope::Workspace => 2,
        }
    }

    /// The number of a scope among the scope panels.
    #[verifier::when_used_as_spec(spec_index)]
    pub fn index(self) -> (idx: usize)
        ensures
            idx == self.spec_index(),
    {
        match self {
            MruScope::All => 0,
            MruScope::Output => 1,
            MruScope::Workspace => 2,
        }
    }
}

impl MruCycle for MruScope {
    fn cycle(&self, direction: MruDirection) -> (scope: MruScope)
        ensures
            scope == self.cycled(direction),
    {
        proof {
            self.lemma_order();
        }
        let scopes: Vec<MruScope> = scope_cycle();
        let mut p: usize = 0;
        while scopes[p] != *self
            invariant
                scopes@ == scope_order(),
                p <= scope_order().index_of(*self) < 3,
                scope_order()[scope_order().index_of(*self)] == *self,
            decreases 3 - p,
        {
            p += 1;
        }
        assert(p == scope_order().index_of(*self)) by {
            scope_order()[p as int].lemma_order();
        }
        match direction {
            MruDirection::Forward => scopes[(p + 1) % 3],
            MruDirection::Backward => scopes[(p + 2) % 3],
        }
    }
}

/// A label with its first letter marked as the key that selects it.
pub open spec fn shortcut_label(key: Seq<char>, rest: Seq<char>) -> Seq<char> {
    "<span face='mono' bgcolor='#2C2C2C' letter_spacing='5000'>"@ + key + "</span>"@ + rest
}

/// A text in the color of what is not selected.
pub open spec fn dimmed(text: Seq<char>) -> Seq<char> {
    "<span fgcolor='#555555'>"@ + text + "</span>"@
}

/// The label of a scope.
pub open spec fn scope_label(scope: MruScope) -> Seq<char> {
    match scope {
        MruScope::All => shortcut_label("A"@, "ll"@),
        MruScope::Output => shortcut_label("O"@, "utput"@),
        MruScope::Workspace => shortcut_label("W"@, "orkspace"@),
    }
}

/// The label of a scope on the panel that shows the scope with number `idx` as selected.
pub open spec fn panel_item(scope: MruScope, idx: usize) -> Seq<char> {
    if scope.spec_index() == idx {
        scope_label(scope)
    } else {
        dimmed(scope_label(scope))
    }
}

/// The items for the first `n` scopes of the cycle, each after a separator.
pub open spec fn panel_items(idx: usize, n: nat) -> Seq<char>
    decreases n,
{
    if n == 0 {
        Seq::empty()
    } else {
        panel_items(idx, (n - 1) as nat) + "  "@ + panel_item(scope_order()[n - 1], idx)
    }
}

/// The markup of the panel that shows the scope with number `idx` as selected.
pub open spec fn panel_text(idx: usize) -> Seq<char> {
    " "@ + dimmed(shortcut_label("S"@, "cope:"@)) + panel_items(idx, 3)
}

/// Appends a label with its first letter marked as the key that selects it.
fn push_shortcut_label(text: &mut String, key: &str, rest: &str)
    ensures
        final(text)@ == old(text)@ + shortcut_label(key@, rest@),
{
    text.append("<span face='mono' bgcolor='#2C2C2C' letter_spacing='5000'>");
    text.append(key);
    text.append("</span>");
    text.append(rest);
    assert(text@ =~= old(text)@ + shortcut_label(key@, rest@));
}

/// Appends the label of a scope.
fn push_scope_label(text: &mut String, scope: MruScope)
    ensures
        final(text)@ == old(text)@ + scope_label(scope),
{
    match scope {
        MruScope::All => push_shortcut_label(text, "A", "ll"),
        MruScope::Output => push_shortcut_label(text, "O", "utput"),
        MruScope::Workspace => push_shortcut_label(text, "W", "orkspace"),
    }
}

/// The markup of the panel that shows the scope with number `idx` as selected.
pub fn make_panel_text(idx: usize) -> (text: String)
    ensures
        text@ == panel_text(idx),
{
    let mut text: String = String::new();
    text.append(" ");
    text.append("<span fgcolor='#555555'>");
    push_shortcut_label(&mut text, "S", "cope:");
    text.append("</span>");
    let ghost head = " "@ + dimmed(shortcut_label("S"@, "cope:"@));
    assert(text@ =~= head + panel_items(idx, 0));

    let scopes: Vec<MruScope> = scope_cycle();
    let mut n: usize = 0;
    while n < scopes.len()
        invariant
            scopes@ == scope_order(),
            n <= scopes.len(),
            text@ == head + panel_items(idx, n as nat),
        decreases scopes.len() - n,
    {
        let scope: MruScope = scopes[n];
        let ghost before = text@;
        text.append("  ");
        if scope.index() != idx {
            text.append("<span fgcolor='#555555'>");
            push_scope_label(&mut text, scope);
            text.append("</span>");
        } else {
            push_scope_label(&mut text, scope);
        }
        n += 1;
        assert(text@ =~= before + "  "@ + panel_item(scope, idx));
        assert(text@ =~= head + panel_items(idx, n as nat));
    }
    text
}

/// The markup of the panels for all scopes, by their numbers.
pub fn scope_panel_texts() -> (texts: Vec<String>)
    ensures
        texts@.len() == 3,
        forall|i: int| 0 <= i < 3 ==> (#[trigger] texts@[i])@ == panel_text(i as usize),
{
    let mut texts: Vec<String> = Vec::new();
    let mut i: usize = 0;
    while i < 3
        invariant
            i <= 3,
            texts@.len() == i,
            forall|j: int| 0 <= j < i ==> (#[trigger] texts@[j])@ == panel_text(j as usize),
        decreases 3 - i,
    {
        texts.push(make_panel_text(i));
        i += 1;
    }
    texts
}

/// A step back through the scopes undoes a step forward, and the other way round.
pub proof fn law_cycle_undone(scope: MruScope)
    ensures
        scope.cycled(MruDirection::Forward).cycled(MruDirection::Backward) == scope,
        scope.cycled(MruDirection::Backward).cycled(MruDirection::Forward) == scope,
{
    scope.lemma_order();
    scope.cycled(MruDirection::Forward).lemma_order();
    scope.cycled(MruDirection::Backward).lemma_order();
}

/// Steps in one direction go through all scopes and back to the first.
pub proof fn law_cycle_covers(scope: MruScope, other: MruScope, direction: MruDirection)
    ensures
        ({
            let second = scope.cycled(direction);
            let third = second.cycled(direction);
            &&& other == scope || other == second || other == third
            &&& scope != second && second != third && third != scope
            &&& third.cycled(direction) == scope
        }),
{
    scope.lemma_order();
    scope.cycled(direction).lemma_order();
    scope.cycled(direction).cycled(direction).lemma_order();
    other.lemma_order();
}

/// The panel for a scope shows that scope as selected, and the others dimmed.
pub proof fn law_panel_marks_scope(scope: MruScope, other: MruScope)
    ensures
        panel_item(other, scope.spec_index()) == if other == scope {
            scope_label(other)
        } else {
            dimmed(scope_label(other))
        },
{
}

/// The scopes follow one another from all windows over the active workspace to the active output,
/// and from there around.
pub proof fn law_cycle_order()
    ensures
        MruScope::All.cycled(MruDirection::Forward) == MruScope::Workspace,
        MruScope::Workspace.cycled(MruDirection::Forward) == MruScope::Output,
        MruScope::Output.cycled(MruDirection::Forward) == MruScope::All,
        MruScope::All.cycled(MruDirection::Backward) == MruScope::Output,
        MruScope::Output.cycled(MruDirection::Backward) == MruScope::Workspace,
        MruScope::Workspace.cycled(MruDirection::Backward) == MruScope::All,
        scope_order().len() == 3,
        forall|i: int|
            0 <= i < 3 ==> #[trigger] scope_order()[i].cycled(MruDirection::Forward)
                == scope_order()[if i < 2 { i + 1 } else { 0 }],
        scope_order()[0] == MruScope::All,
{
    MruScope::All.lemma_order();
    MruScope::Workspace.lemma_order();
    MruScope::Output.lemma_order();
}

/// The number of a scope is its place among the variants.
pub proof fn law_scope_numbers(scope: MruScope)
    ensures
        scope.spec_index() == 0 <==> scope == MruScope::All,
        scope.spec_index() == 1 <==> scope == MruScope::Output,
        scope.spec_index() == 2 <==> scope == MruScope::Workspace,
        scope.spec_index() < 3,
{
}

/// The panel reads "Scope:" and then the scopes in the order of the cycle, each with the key that
/// selects it marked. What is not selected is dimmed.
pub proof fn law_panel_reads(idx: usize)
    ensures
        ({
            let key = "<span face='mono' bgcolor='#2C2C2C' letter_spacing='5000'>"@;
            let dim = "<span fgcolor='#555555'>"@;
            let end = "</span>"@;
            let head = " "@ + (dim + (key + "S"@ + end + "cope:"@) + end);
            let all = key + "A"@ + end + "ll"@;
            let workspace = key + "W"@ + end + "orkspace"@;
            let output = key + "O"@ + end + "utput"@;
            let first = if idx == 0 { all } else { dim + all + end };
            let second = if idx == 2 { workspace } else { dim + workspace + end };
            let third = if idx == 1 { output } else { dim + output + end };
            panel_text(idx) == head + ("  "@ + first + "  "@ + second + "  "@ + third)
        }),
{
    reveal_with_fuel(panel_items, 4);
    assert(Seq::<char>::empty() + "  "@ =~= "  "@);
}

} // verus!
