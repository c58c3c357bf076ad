//! The commands that the commander lists and runs.
use vstd::prelude::*;
use crate::chars::str_equal;
use vstd::string::StrSliceExecFns;
use crate::global_defaults::{
    text_matches, text_matches_ignoring_case, text_matches_input, text_matches_input_ignoring_case,
};

verus! {

/// What a command is run with.
pub struct CommandRunContext {
    /// Only for the commander: whether the view focused before it gets the
    /// focus back.
    pub focus_previous_view: bool,
}

impl Default for CommandRunContext {
    fn default() -> (ctx: CommandRunContext)
        ensures
            ctx.focus_previous_view,
    {
        Self { focus_previous_view: true }
    }
}

/// A command of the editor.  Each command is known by its id.
pub trait EditorCommand {
    /// The id that the command gives (what `id` returns).
    spec fn command_id(&self) -> Seq<char>;

    /// Whether the commander lists the command.  Unless a command says
    /// otherwise, it is listed.
    fn is_visible(&self) -> (visible: bool)
        default_ensures
            visible,
    {
        true
    }

    fn matches(&self, input: &str) -> bool;

    fn id(&self) -> (id: &str)
        ensures
            id@ == self.command_id(),
    ;

    fn text(&self) -> &str;

    fn run(&self, ctx: &mut CommandRunContext);
}

/// The registered commands: `commands[k]` is registered under `ids[k]`, at
/// most one per id, in the order in which their ids were first registered.
pub struct EditorCommands<C: EditorCommand> {
    pub(crate) ids: Vec<String>,
    pub(crate) commands: Vec<C>,
}

pub open spec fn string_views(ids: Seq<String>) -> Seq<Seq<char>> {
    ids.map_values(|s: String| s@)
}

impl<C: EditorCommand> Default for EditorCommands<C> {
    fn default() -> (commands: EditorCommands<C>)
        ensures
            commands.wf(),
            commands.ids() == Seq::<Seq<char>>::empty(),
    {
        let commands = EditorCommands { ids: Vec::new(), commands: Vec::new() };
        assert(commands.ids() =~= Seq::<Seq<char>>::empty());
        commands
    }
}

/// The ids after a command registers under `id`: unchanged when it was
/// registered, else with `id` at the end.
pub open spec fn registered_under(before: Seq<Seq<char>>, after: Seq<Seq<char>>, id: Seq<char>) -> bool {
    after == if before.contains(id) {
        before
    } else {
        before.push(id)
    }
}

/// The ids of the first `n` commands whose flag in `shown` is set, in order.
pub open spec fn kept_ids(ids: Seq<Seq<char>>, shown: Seq<bool>, n: nat) -> Seq<Seq<char>>
    decreases n,
{
    if n == 0 {
        Seq::empty()
    } else {
        let before = kept_ids(ids, shown, (n - 1) as nat);
        if shown[n - 1] {
            before.push(ids[n - 1])
        } else {
            before
        }
    }
}

proof fn lemma_kept_ids_prefix(ids: Seq<Seq<char>>, a: Seq<bool>, b: Seq<bool>, n: nat)
    requires
        n <= a.len(),
        n <= b.len(),
        forall|j: int| 0 <= j < n ==> a[j] == b[j],
    ensures
        kept_ids(ids, a, n) == kept_ids(ids, b, n),
    decreases n,
{
    if n > 0 {
        lemma_kept_ids_prefix(ids, a, b, (n - 1) as nat);
    }
}

/// Whether the commander lists `command` for `input`: what `is_visible`
/// gives, and when the input is not empty and the command is visible, what
/// `matches` gives for the input.
pub open spec fn listed_by<C: EditorCommand>(command: C, input: &str, listed: bool) -> bool {
    exists|visible: bool|
        #[trigger] call_ensures(C::is_visible, (&command,), visible) && if input@.len() == 0 || !visible {
            listed == visible
        } else {
            exists|matched: bool| #[trigger] call_ensures(C::matches, (&command, input), matched) && listed == matched
        }
}

impl<C: EditorCommand> EditorCommands<C> {
    /// The ids of the registered commands.
    pub closed spec fn ids(&self) -> Seq<Seq<char>> {
        string_views(self.ids@)
    }

    /// The registered commands, in the order of their ids.
    pub closed spec fn registered(&self) -> Seq<C> {
        self.commands@
    }

    /// The place of the command registered under `id`, if any.
    pub closed spec fn slot_of(&self, id: Seq<char>) -> Option<int> {
        if self.ids().contains(id) {
            Some(self.ids().index_of(id))
        } else {
            None
        }
    }

    /// No id is registered twice, and each id has its command.
    pub closed spec fn wf(&self) -> bool {
        &&& self.ids().no_duplicates()
        &&& self.commands@.len() == self.ids@.len()
    }

    /// The command registered under `id`, if any.
    pub closed spec fn command_of(&self, id: Seq<char>) -> Option<C> {
        match self.slot_of(id) {
            Some(k) => Some(self.commands@[k]),
            None => None,
        }
    }

    fn position(&self, id: &str) -> (k: Option<usize>)
        requires
            self.wf(),
        ensures
            k is Some <==> self.ids().contains(id@),
            k matches Some(k) ==> k < self.ids@.len() && self.ids()[k as int] == id@,
    {
        let mut k: usize = 0;
        while k < self.ids.len()
            invariant
                k <= self.ids.len(),
                forall|j: int| 0 <= j < k ==> self.ids()[j] != id@,
            decreases self.ids.len() - k,
        {
            if str_equal(self.ids[k].as_str(), id) {
                assert(self.ids()[k as int] == id@);
                return Some(k);
            }
            k = k + 1;
        }
        None
    }

    /// Registers a command under the id that it gives, in place of one that
    /// had that id; the other commands keep their places.
    pub fn register(&mut self, editor: C)
        requires
            old(self).wf(),
        ensures
            final(self).wf(),
            registered_under(old(self).ids(), final(self).ids(), editor.command_id()),
            final(self).command_of(editor.command_id()) == Some(editor),
            forall|other: Seq<char>|
                other != editor.command_id() ==> #[trigger] final(self).slot_of(other) == old(
                    self,
                ).slot_of(other) && final(self).command_of(other) == old(self).command_of(other),
    {
        let id = editor.id().to_owned();
        let ghost new_id = id@;
        let ghost old_ids = self.ids();
        match self.position(id.as_str()) {
            Some(k) => {
                self.commands.set(k, editor);
                proof {
                    assert(self.ids() == old_ids);
                    assert(registered_under(old_ids, self.ids(), new_id));
                    assert(self.slot_of(new_id) == Some(k as int)) by {
                        let i = old_ids.index_of(new_id);
                        assert(old_ids[i] == new_id);
                    }
                    assert forall|other: Seq<char>| other != new_id implies #[trigger] self.slot_of(other)
                        == old(self).slot_of(other) && self.command_of(other) == old(self).command_of(other) by {
                        if old_ids.contains(other) {
                            let j = old_ids.index_of(other);
                            assert(old_ids[j] == other);
                            assert(j != k);
                        }
                    }
                }
            },
            None => {
                self.ids.push(id);
                self.commands.push(editor);
                proof {
                    assert(self.ids() =~= old_ids.push(new_id));
                    assert(self.ids()[old_ids.len() as int] == new_id);
                    assert(registered_under(old_ids, self.ids(), new_id));
                    assert(self.ids().no_duplicates()) by {
                        assert forall|a: int, b: int| 0 <= a < self.ids().len() && 0 <= b < self.ids().len() && a != b implies self.ids()[a] != self.ids()[b] by {
                            if a < old_ids.len() && b < old_ids.len() {
                                assert(old_ids[a] != old_ids[b]);
                            } else if a < old_ids.len() {
                                assert(old_ids[a] != new_id);
                            } else if b < old_ids.len() {
                                assert(old_ids[b] != new_id);
                            }
                        }
                    }
                    assert(self.slot_of(new_id) == Some(old_ids.len() as int)) by {
                        let i = self.ids().index_of(new_id);
                        assert(self.ids()[i] == new_id);
                    }
                    assert forall|other: Seq<char>| other != new_id implies #[trigger] self.slot_of(other)
                        == old(self).slot_of(other) && self.command_of(other) == old(self).command_of(other) by {
                        if old_ids.contains(other) {
                            let j = old_ids.index_of(other);
                            assert(old_ids[j] == other);
                            assert(self.ids()[j] == other);
                            let jn = self.ids().index_of(other);
                            assert(self.ids()[jn] == other);
                            assert(jn == j);
                        } else {
                            assert(!self.ids().contains(other)) by {
                                if self.ids().contains(other) {
                                    let jn = choose|jn: int| 0 <= jn < self.ids().len() && self.ids()[jn] == other;
                                    assert(jn < old_ids.len());
                                    assert(old_ids[jn] == other);
                                }
                            }
                        }
                    }
                }
            },
        }
    }

    /// The ids of the commands that the commander lists for `input`, in the
    /// order of the registry: with an empty input the visible ones, else the
    /// visible ones that match it.
    pub fn visible_commands(&self, input: &str) -> (listed: Vec<String>)
        requires
            self.wf(),
        ensures
            exists|shown: Seq<bool>|
                shown.len() == self.ids().len() && (forall|k: int|
                    0 <= k < shown.len() ==> listed_by(self.registered()[k], input, #[trigger] shown[k]))
                    && string_views(listed@) == kept_ids(self.ids(), shown, shown.len()),
    {
        let empty = input.unicode_len() == 0;
        let mut listed: Vec<String> = Vec::new();
        let ghost mut shown: Seq<bool> = Seq::empty();
        let mut k: usize = 0;
        while k < self.commands.len()
            invariant
                self.wf(),
                k <= self.commands@.len(),
                empty == (input@.len() == 0),
                shown.len() == k,
                forall|j: int| 0 <= j < k ==> listed_by(self.commands@[j], input, #[trigger] shown[j]),
                string_views(listed@) == kept_ids(self.ids(), shown, k as nat),
            decreases self.commands.len() - k,
        {
            let command = &self.commands[k];
            let visible = (C::is_visible)(command);
            let show = if empty || !visible {
                visible
            } else {
                (C::matches)(command, input)
            };
            proof {
                let next = shown.push(show);
                lemma_kept_ids_prefix(self.ids(), shown, next, k as nat);
                assert(listed_by(self.commands@[k as int], input, show));
            }
            let ghost before = listed@;
            if show {
                listed.push(self.ids[k].clone());
                proof {
                    assert(listed@.drop_last() =~= before);
                    assert(string_views(listed@) =~= string_views(before).push(self.ids()[k as int]));
                }
            }
            proof {
                shown = shown.push(show);
            }
            k = k + 1;
        }
        listed
    }

    /// Runs the command registered under `command_name`, if there is one,
    /// with a fresh context.
    pub fn trigger(&self, command_name: &str)
        requires
            self.wf(),
        ensures
            self.command_of(command_name@) matches Some(c) ==> exists|args: (&C, &mut CommandRunContext)|
                args.0 == c && args.1.focus_previous_view && #[trigger] call_ensures(C::run, args, ()),
    {
        match self.position(command_name) {
            Some(k) => {
                let mut ctx = CommandRunContext::default();
                proof {
                    let i = self.ids().index_of(command_name@);
                    assert(self.ids()[i] == command_name@);
                    assert(self.ids()[k as int] == command_name@);
                }
                (C::run)(&self.commands[k], &mut ctx);
            },
            None => {},
        }
    }
}

/// How a command is matched by what is typed in the commander.
#[derive(Clone, Copy, PartialEq, Eq, Debug, Structural)]
pub enum CommandMatching {
    /// The input occurs in the command's text in lower case.
    Text,
    /// The input in lower case occurs in the command's text in lower case.
    TextIgnoringCase,
    /// What is typed never lists the command.
    Never,
}

pub open spec fn matches_input(matching: CommandMatching, text: Seq<char>, input: Seq<char>) -> bool {
    match matching {
        CommandMatching::Text => text_matches_input(text, input),
        CommandMatching::TextIgnoringCase => text_matches_input_ignoring_case(text, input),
        CommandMatching::Never => false,
    }
}

/// A command made of its id, its text, whether the commander lists it, how
/// it is matched, and the action that runs it.
pub struct FnCommand<F: Fn()> {
    id: String,
    text: String,
    visible: bool,
    matching: CommandMatching,
    action: F,
}

impl<F: Fn()> FnCommand<F> {
    /// The action can always be run.
    #[verifier::type_invariant]
    spec fn runnable(self) -> bool {
        call_requires(self.action, ())
    }

    pub closed spec fn text_spec(&self) -> Seq<char> {
        self.text@
    }

    pub closed spec fn visible_spec(&self) -> bool {
        self.visible
    }

    pub closed spec fn matching_spec(&self) -> CommandMatching {
        self.matching
    }

    pub closed spec fn action_spec(&self) -> F {
        self.action
    }

    pub fn new(id: String, text: String, visible: bool, matching: CommandMatching, action: F) -> (command: Self)
        requires
            call_requires(action, ()),
        ensures
            command.command_id() == id@,
            command.text_spec() == text@,
            command.visible_spec() == visible,
            command.matching_spec() == matching,
            command.action_spec() == action,
    {
        FnCommand { id, text, visible, matching, action }
    }
}

impl<F: Fn()> EditorCommand for FnCommand<F> {
    closed spec fn command_id(&self) -> Seq<char> {
        self.id@
    }

    fn is_visible(&self) -> (visible: bool)
        ensures
            visible == self.visible_spec(),
    {
        self.visible
    }

    fn matches(&self, input: &str) -> (matches: bool)
        ensures
            matches == matches_input(self.matching_spec(), self.text_spec(), input@),
    {
        match self.matching {
            CommandMatching::Text => text_matches(self.text.as_str(), input),
            CommandMatching::TextIgnoringCase => text_matches_ignoring_case(self.text.as_str(), input),
            CommandMatching::Never => false,
        }
    }

    fn id(&self) -> (id: &str) {
        self.id.as_str()
    }

    fn text(&self) -> (text: &str)
        ensures
            text@ == self.text_spec(),
    {
        self.text.as_str()
    }

    fn run(&self, ctx: &mut CommandRunContext)
        ensures
            *final(ctx) == *old(ctx),
            call_ensures(self.action_spec(), (), ()),
    {
        proof {
            use_type_invariant(self);
        }
        (self.action)();
    }
}

} // verus!
