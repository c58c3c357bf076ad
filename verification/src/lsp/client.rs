//! The decisions of the language server client: which language a file is in,
//! what the status bar shows while the server indexes, and what a hover shows.
use vstd::prelude::*;
use crate::chars::{str_is, string_push, string_push_str};

verus! {

#[derive(Clone, Copy, Debug, PartialEq, Eq, Structural)]
pub enum LanguageId {
    Rust,
    Python,
    JavaScript,
    TypeScript,
    Markdown,
    Unknown,
}

impl Default for LanguageId {
    fn default() -> (id: LanguageId)
        ensures
            id == LanguageId::Unknown,
    {
        LanguageId::Unknown
    }
}

/// The language of a file, by its extension.
pub open spec fn language_of_extension(ext: Seq<char>) -> LanguageId {
    if ext == seq!['r', 's'] {
        LanguageId::Rust
    } else if ext == seq!['p', 'y'] {
        LanguageId::Python
    } else if ext == seq!['j', 's'] {
        LanguageId::JavaScript
    } else if ext == seq!['t', 's'] {
        LanguageId::TypeScript
    } else if ext == seq!['m', 'd'] {
        LanguageId::Markdown
    } else {
        LanguageId::Unknown
    }
}

/// The name under which a language is shown.
pub open spec fn language_display_name(id: LanguageId) -> Seq<char> {
    match id {
        LanguageId::Rust => "Rust"@,
        LanguageId::Python => "Python"@,
        LanguageId::JavaScript => "JavaScript"@,
        LanguageId::TypeScript => "TypeScript"@,
        LanguageId::Markdown => "Markdown"@,
        LanguageId::Unknown => "Unknown"@,
    }
}

/// Only Rust has a language server, `rust-analyzer`.
pub open spec fn language_server_of(id: LanguageId) -> Option<Seq<char>> {
    match id {
        LanguageId::Rust => Some("rust-analyzer"@),
        _ => None,
    }
}

impl LanguageId {
    pub fn parse(id: &str) -> (language: Self)
        ensures
            language == language_of_extension(id@),
    {
        if str_is(id, &['r', 's']) {
            LanguageId::Rust
        } else if str_is(id, &['p', 'y']) {
            LanguageId::Python
        } else if str_is(id, &['j', 's']) {
            LanguageId::JavaScript
        } else if str_is(id, &['t', 's']) {
            LanguageId::TypeScript
        } else if str_is(id, &['m', 'd']) {
            LanguageId::Markdown
        } else {
            LanguageId::Unknown
        }
    }

    pub fn language_server(&self) -> (server: Option<&str>)
        ensures
            server matches Some(s) ==> language_server_of(*self) == Some(s@),
            server is None ==> language_server_of(*self) is None,
    {
        match self {
            LanguageId::Rust => Some("rust-analyzer"),
            _ => None,
        }
    }

    /// The name under which the language is shown.
    pub fn to_string(&self) -> (name: String)
        ensures
            name@ == language_display_name(*self),
    {
        match self {
            LanguageId::Rust => "Rust",
            LanguageId::Python => "Python",
            LanguageId::JavaScript => "JavaScript",
            LanguageId::TypeScript => "TypeScript",
            LanguageId::Markdown => "Markdown",
            LanguageId::Unknown => "Unknown",
        }.to_owned()
    }
}

/// The language of an editor and the program that serves it.
#[derive(Clone)]
pub struct LspConfig {
    pub(crate) language_id: LanguageId,
    pub(crate) language_server: String,
}

impl LspConfig {
    pub closed spec fn language(&self) -> LanguageId {
        self.language_id
    }

    pub closed spec fn server(&self) -> Seq<char> {
        self.language_server@
    }

    /// A configuration exists when the language has a server.
    pub fn new(language_id: LanguageId) -> (config: Option<Self>)
        ensures
            config is Some <==> language_server_of(language_id) is Some,
            config matches Some(c) ==> c.language() == language_id && Some(c.server())
                == language_server_of(language_id),
    {
        let language_server = match language_id.language_server() {
            Some(server) => server.to_owned(),
            None => {
                return None;
            },
        };
        Some(Self { language_id, language_server })
    }
}

// ---------------------------------------------------------------------------
// Progress of the indexing
// ---------------------------------------------------------------------------

/// A progress notification of the language server, in plain values.
pub enum WorkDoneProgress {
    Begin { title: String, message: Option<String> },
    Report { percentage: Option<u32>, message: Option<String> },
    End { message: Option<String> },
}

/// What a progress notification changes: whether the project counts as
/// indexed afterwards (if it says), and the status line to show.
pub struct ProgressUpdate {
    pub indexed: Option<bool>,
    pub status: String,
}

/// The decimal digits of a number below 100.
pub open spec fn small_decimal(v: u32) -> Seq<char> {
    if v < 10 {
        seq![(('0' as u32) + v) as char]
    } else {
        seq![(('0' as u32) + v / 10) as char, (('0' as u32) + v % 10) as char]
    }
}

pub open spec fn opt_text(s: Option<String>) -> Seq<char> {
    match s {
        Some(t) => t@,
        None => Seq::empty(),
    }
}

/// The status line for a percentage and a message: `"{v}% {message}"`, where
/// a complete (100 or more) or missing percentage shows as nothing.
pub open spec fn report_status(percentage: Option<u32>, message: Option<String>) -> Seq<char> {
    let shown = match percentage {
        Some(v) => if v < 100 { small_decimal(v).push('%') } else { Seq::empty() },
        None => Seq::empty(),
    };
    shown.push(' ') + opt_text(message)
}

pub open spec fn progress_status(value: WorkDoneProgress) -> Seq<char> {
    match value {
        WorkDoneProgress::Begin { title, message } => match message {
            Some(m) => title@.push(' ') + m@,
            None => title@,
        },
        WorkDoneProgress::Report { percentage, message } => report_status(percentage, message),
        WorkDoneProgress::End { message } => opt_text(message),
    }
}

pub open spec fn progress_indexed(value: WorkDoneProgress) -> Option<bool> {
    match value {
        WorkDoneProgress::Begin { .. } => Some(false),
        WorkDoneProgress::Report { .. } => None,
        WorkDoneProgress::End { .. } => Some(true),
    }
}

fn digit(v: u32) -> (c: char)
    requires
        v < 10,
    ensures
        c == (('0' as u32) + v) as char,
{
    match v {
        0 => '0',
        1 => '1',
        2 => '2',
        3 => '3',
        4 => '4',
        5 => '5',
        6 => '6',
        7 => '7',
        8 => '8',
        _ => '9',
    }
}

/// Whether a progress token is the one of rust-analyzer's indexing.
pub fn is_indexing_token(token: &str) -> (indexing: bool)
    ensures
        indexing == (token@ == "rustAnalyzer/Indexing"@),
{
    let expected: [char; 21] = ['r', 'u', 's', 't', 'A', 'n', 'a', 'l', 'y', 'z', 'e', 'r', '/', 'I', 'n', 'd', 'e', 'x', 'i', 'n', 'g'];
    proof {
        reveal_strlit("rustAnalyzer/Indexing");
        assert(expected@ =~= "rustAnalyzer/Indexing"@);
    }
    str_is(token, &expected)
}

/// What a progress notification of the indexing does to the status.
pub fn progress_update(value: WorkDoneProgress) -> (update: ProgressUpdate)
    ensures
        update.indexed == progress_indexed(value),
        update.status@ == progress_status(value),
{
    let ghost v = value;
    match value {
        WorkDoneProgress::Begin { title, message } => {
            let mut content = title;
            match message {
                Some(m) => {
                    string_push(&mut content, ' ');
                    string_push_str(&mut content, m.as_str());
                },
                None => {},
            }
            ProgressUpdate { indexed: Some(false), status: content }
        },
        WorkDoneProgress::Report { percentage, message } => {
            let mut status = String::new();
            match percentage {
                Some(v) => {
                    if v < 100 {
                        if v >= 10 {
                            string_push(&mut status, digit(v / 10));
                        }
                        string_push(&mut status, digit(v % 10));
                        string_push(&mut status, '%');
                    }
                },
                None => {},
            }
            string_push(&mut status, ' ');
            match message {
                Some(m) => string_push_str(&mut status, m.as_str()),
                None => {},
            }
            proof {
                match percentage {
                    Some(v) => {
                        if v < 10 {
                            assert(v % 10 == v);
                        }
                    },
                    None => {},
                }
                assert(status@ =~= progress_status(v));
            }
            ProgressUpdate { indexed: None, status }
        },
        WorkDoneProgress::End { message } => {
            let status = match message {
                Some(m) => m,
                None => String::new(),
            };
            ProgressUpdate { indexed: Some(true), status }
        },
    }
}

// ---------------------------------------------------------------------------
// Hover
// ---------------------------------------------------------------------------

/// The contents of a hover answer: each marked string is given by its value.
pub enum HoverContents {
    Markup(String),
    Array(Vec<String>),
    Scalar(String),
}

/// The pieces joined by `\n`.
pub open spec fn joined_lines(pieces: Seq<Seq<char>>) -> Seq<char>
    decreases pieces.len(),
{
    if pieces.len() == 0 {
        Seq::empty()
    } else if pieces.len() == 1 {
        pieces[0]
    } else {
        joined_lines(pieces.drop_last()).push('\n') + pieces.last()
    }
}

pub open spec fn hover_text(contents: HoverContents) -> Seq<char> {
    match contents {
        HoverContents::Markup(v) => v@,
        HoverContents::Array(vs) => joined_lines(vs@.map_values(|v: String| v@)),
        HoverContents::Scalar(v) => v@,
    }
}

/// The text that a hover shows: none when the server answers with `()`.
pub fn hover_content(contents: HoverContents) -> (content: Option<String>)
    ensures
        content is Some <==> hover_text(contents) != "()"@,
        content matches Some(c) ==> c@ == hover_text(contents),
{
    let ghost initial = contents;
    let content = match contents {
        HoverContents::Markup(v) => v,
        HoverContents::Array(vs) => {
            let ghost views = vs@.map_values(|v: String| v@);
            let mut joined = String::new();
            let mut k: usize = 0;
            while k < vs.len()
                invariant
                    k <= vs.len(),
                    views == vs@.map_values(|v: String| v@),
                    joined@ == joined_lines(views.take(k as int)),
                decreases vs.len() - k,
            {
                if k > 0 {
                    string_push(&mut joined, '\n');
                }
                string_push_str(&mut joined, vs[k].as_str());
                assert(views.take(k + 1).drop_last() =~= views.take(k as int));
                k = k + 1;
            }
            assert(views.take(vs.len() as int) =~= views);
            joined
        },
        HoverContents::Scalar(v) => v,
    };
    let unit: [char; 2] = ['(', ')'];
    proof {
        reveal_strlit("()");
        assert(unit@ =~= "()"@);
    }
    if str_is(content.as_str(), &unit) {
        None
    } else {
        Some(content)
    }
}

// ---------------------------------------------------------------------------
// Requests to the language server
// ---------------------------------------------------------------------------

/// The kind of a request that an editor sends to its language server.
#[derive(Clone, Copy, PartialEq, Eq, Debug, Structural)]
pub enum LspActionKind {
    Initialize,
    OpenFile,
    CloseFile,
    Hover,
    Clear,
}

/// What the client does with a request.
#[derive(Clone, Copy, PartialEq, Eq, Debug, Structural)]
pub enum LspStep {
    /// Initialize the server on the project folder.
    Initialize,
    /// Send the text of the file to the server.
    OpenFile,
    /// Tell the server that the file closed.
    CloseFile,
    /// Ask the server what to show over a position.
    Hover,
    /// Forget what the editor showed from the server.
    Clear,
    /// Note that the server is still indexing.
    ReportIndexing,
    /// Nothing.
    Ignore,
}

/// A server is initialized only before it has indexed, and answers hovers only
/// once it has; a request that is refused while the server has indexed is
/// reported as indexing.
pub open spec fn lsp_step_spec(kind: LspActionKind, is_indexed: bool) -> LspStep {
    match kind {
        LspActionKind::Initialize => if !is_indexed { LspStep::Initialize } else { LspStep::ReportIndexing },
        LspActionKind::OpenFile => LspStep::OpenFile,
        LspActionKind::CloseFile => LspStep::CloseFile,
        LspActionKind::Hover => if is_indexed { LspStep::Hover } else { LspStep::Ignore },
        LspActionKind::Clear => LspStep::Clear,
    }
}

pub fn lsp_step(kind: LspActionKind, is_indexed: bool) -> (step: LspStep)
    ensures
        step == lsp_step_spec(kind, is_indexed),
{
    match kind {
        LspActionKind::Initialize if !is_indexed => LspStep::Initialize,
        LspActionKind::OpenFile => LspStep::OpenFile,
        LspActionKind::CloseFile => LspStep::CloseFile,
        LspActionKind::Hover if is_indexed => LspStep::Hover,
        LspActionKind::Clear => LspStep::Clear,
        _ => {
            if is_indexed {
                LspStep::ReportIndexing
            } else {
                LspStep::Ignore
            }
        },
    }
}

// ---------------------------------------------------------------------------
// The indexing flag over the progress notifications
// ---------------------------------------------------------------------------

/// The token of a progress notification.
pub enum ProgressToken {
    Number(i32),
    Text(String),
}

/// Only the progress of rust-analyzer's indexing counts.
pub open spec fn counted_token(token: ProgressToken) -> bool {
    match token {
        ProgressToken::Text(t) => t@ == "rustAnalyzer/Indexing"@,
        ProgressToken::Number(_) => false,
    }
}

/// The indexing flag after one notification: a counted beginning clears it,
/// a counted end sets it, anything else leaves it.
pub open spec fn indexed_step(indexed: bool, token: ProgressToken, value: WorkDoneProgress) -> bool {
    if counted_token(token) {
        match progress_indexed(value) {
            Some(b) => b,
            None => indexed,
        }
    } else {
        indexed
    }
}

/// The indexing flag after a sequence of notifications.
pub open spec fn indexed_after(start: bool, notes: Seq<(ProgressToken, WorkDoneProgress)>) -> bool
    decreases notes.len(),
{
    if notes.len() == 0 {
        start
    } else {
        indexed_step(indexed_after(start, notes.drop_last()), notes.last().0, notes.last().1)
    }
}

/// What the client does with a progress notification: one of the indexing
/// updates the flag and gives the status line to send for the language
/// server; one of another token changes nothing and sends nothing.
pub fn track_progress(indexed: &mut bool, token: ProgressToken, value: WorkDoneProgress) -> (status: Option<String>)
    ensures
        *final(indexed) == indexed_step(*old(indexed), token, value),
        status is Some <==> counted_token(token),
        status matches Some(s) ==> s@ == progress_status(value),
{
    let counted = match &token {
        ProgressToken::Text(t) => is_indexing_token(t.as_str()),
        ProgressToken::Number(_) => false,
    };
    if !counted {
        return None;
    }
    let update = progress_update(value);
    match update.indexed {
        Some(b) => {
            *indexed = b;
        },
        None => {},
    }
    Some(update.status)
}

/// What the client keeps of the indexing: the flag and the language server
/// whose status it reports.  The flag follows every notification received
/// since the client started.
pub struct IndexingState {
    indexed: bool,
    language_server: String,
    received: Ghost<Seq<(ProgressToken, WorkDoneProgress)>>,
}

impl IndexingState {
    /// The flag is what the notifications received so far make of an
    /// unindexed start.
    #[verifier::type_invariant]
    spec fn follows_notifications(self) -> bool {
        self.indexed == indexed_after(false, self.received@)
    }

    /// The progress notifications received, in order.
    pub closed spec fn received(&self) -> Seq<(ProgressToken, WorkDoneProgress)> {
        self.received@
    }

    /// The language server that the status is reported for.
    pub closed spec fn server(&self) -> Seq<char> {
        self.language_server@
    }

    /// A client that has received nothing yet, so the project is not indexed.
    pub fn new(language_server: String) -> (state: Self)
        ensures
            state.received() == Seq::<(ProgressToken, WorkDoneProgress)>::empty(),
            state.server() == language_server@,
    {
        IndexingState { indexed: false, language_server, received: Ghost(Seq::empty()) }
    }

    /// Whether the project counts as indexed.
    pub fn is_indexed(&self) -> (indexed: bool)
        ensures
            indexed == indexed_after(false, self.received()),
    {
        proof {
            use_type_invariant(self);
        }
        self.indexed
    }

    /// Receives a progress notification: one of the indexing updates the flag
    /// and gives the language server and the status line to send; one of
    /// another token changes nothing and sends nothing.
    pub fn on_progress(&mut self, token: ProgressToken, value: WorkDoneProgress) -> (sent: Option<(String, String)>)
        ensures
            final(self).received() == old(self).received().push((token, value)),
            final(self).server() == old(self).server(),
            sent is Some <==> counted_token(token),
            sent matches Some((server, status)) ==> server@ == old(self).server() && status@ == progress_status(
                value,
            ),
    {
        proof {
            use_type_invariant(&*self);
        }
        let ghost note = (token, value);
        let ghost before = self.received@;
        let mut indexed = self.indexed;
        let status = track_progress(&mut indexed, token, value);
        proof {
            assert(before.push(note).drop_last() =~= before);
        }
        let language_server = self.language_server.clone();
        *self = IndexingState { indexed, language_server, received: Ghost(before.push(note)) };
        match status {
            Some(status) => Some((self.language_server.clone(), status)),
            None => None,
        }
    }
}

/// Starting unindexed, the project is indexed after a sequence of
/// notifications exactly when a counted end came and no counted beginning
/// came after it.
pub proof fn law_indexed_after_last_end(notes: Seq<(ProgressToken, WorkDoneProgress)>)
    ensures
        indexed_after(false, notes) <==> exists|i: int|
            #![trigger notes[i]]
            0 <= i < notes.len() && counted_token(notes[i].0) && notes[i].1 is End && forall|j: int|
                i < j < notes.len() ==> !(counted_token(#[trigger] notes[j].0) && notes[j].1 is Begin),
    decreases notes.len(),
{
    if notes.len() > 0 {
        let rest = notes.drop_last();
        let n = notes.len() - 1;
        law_indexed_after_last_end(rest);
        let last = notes.last();
        assert forall|k: int| 0 <= k < rest.len() implies #[trigger] rest[k] == notes[k] by {}
        if counted_token(last.0) && last.1 is End {
            assert(notes[n] == last);
        } else if counted_token(last.0) && last.1 is Begin {
            if indexed_after(false, notes) {
                assert(false);
            }
            if exists|i: int|
                #![trigger notes[i]]
                0 <= i < notes.len() && counted_token(notes[i].0) && notes[i].1 is End && forall|j: int|
                    i < j < notes.len() ==> !(counted_token(#[trigger] notes[j].0) && notes[j].1 is Begin) {
                let i = choose|i: int|
                    #![trigger notes[i]]
                    0 <= i < notes.len() && counted_token(notes[i].0) && notes[i].1 is End && forall|j: int|
                        i < j < notes.len() ==> !(counted_token(#[trigger] notes[j].0) && notes[j].1 is Begin);
                assert(notes[n] == last);
                assert(i != n);
                assert(false);
            }
        } else {
            assert(indexed_after(false, notes) == indexed_after(false, rest));
            if indexed_after(false, rest) {
                let i = choose|i: int|
                    #![trigger rest[i]]
                    0 <= i < rest.len() && counted_token(rest[i].0) && rest[i].1 is End && forall|j: int|
                        i < j < rest.len() ==> !(counted_token(#[trigger] rest[j].0) && rest[j].1 is Begin);
                assert(notes[i] == rest[i]);
                assert forall|j: int| i < j < notes.len() implies !(counted_token(#[trigger] notes[j].0)
                    && notes[j].1 is Begin) by {
                    if j < n {
                        assert(notes[j] == rest[j]);
                    } else {
                        assert(notes[j] == last);
                    }
                }
            }
            if exists|i: int|
                #![trigger notes[i]]
                0 <= i < notes.len() && counted_token(notes[i].0) && notes[i].1 is End && forall|j: int|
                    i < j < notes.len() ==> !(counted_token(#[trigger] notes[j].0) && notes[j].1 is Begin) {
                let i = choose|i: int|
                    #![trigger notes[i]]
                    0 <= i < notes.len() && counted_token(notes[i].0) && notes[i].1 is End && forall|j: int|
                        i < j < notes.len() ==> !(counted_token(#[trigger] notes[j].0) && notes[j].1 is Begin);
                assert(notes[n] == last);
                assert(i != n);
                assert(rest[i] == notes[i]);
                assert forall|j: int| i < j < rest.len() implies !(counted_token(#[trigger] rest[j].0)
                    && rest[j].1 is Begin) by {
                    assert(rest[j] == notes[j]);
                }
            }
        }
    }
}

} // verus!
