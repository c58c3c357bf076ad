//! Languages and the configuration of their language servers.
use vstd::prelude::*;
use crate::chars::{str_equal, str_is};
use crate::lsp::client::{progress_update, report_status, WorkDoneProgress};

pub mod client;

verus! {

#[derive(Clone, Copy, Debug, PartialEq, Eq, Structural)]
pub enum LanguageId {
    Rust,
    Python,
    JavaScript,
    TypeScript,
    Unknown,
}

impl Default for LanguageId {
    fn default() -> (id: LanguageId)
        ensures
            id == LanguageId::Unknown,
    {
        LanguageId::Unknown
    }
}

/// The language of a file, by its extension.
pub open spec fn language_of_extension(ext: Seq<char>) -> LanguageId {
    if ext == seq!['r', 's'] {
        LanguageId::Rust
    } else if ext == seq!['p', 'y'] {
        LanguageId::Python
    } else if ext == seq!['j', 's'] {
        LanguageId::JavaScript
    } else if ext == seq!['t', 's'] {
        LanguageId::TypeScript
    } else {
        LanguageId::Unknown
    }
}

pub open spec fn language_name(id: LanguageId) -> Seq<char> {
    match id {
        LanguageId::Rust => "rust"@,
        LanguageId::Python => "python"@,
        LanguageId::JavaScript => "javascript"@,
        LanguageId::TypeScript => "typescript"@,
        LanguageId::Unknown => "unknown"@,
    }
}

/// Only Rust has a language server, `rust-analyzer`.
pub open spec fn language_server_of(id: LanguageId) -> Option<Seq<char>> {
    match id {
        LanguageId::Rust => Some("rust-analyzer"@),
        _ => None,
    }
}

impl LanguageId {
    pub fn parse(id: &str) -> (language: Self)
        ensures
            language == language_of_extension(id@),
    {
        if str_is(id, &['r', 's']) {
            LanguageId::Rust
        } else if str_is(id, &['p', 'y']) {
            LanguageId::Python
        } else if str_is(id, &['j', 's']) {
            LanguageId::JavaScript
        } else if str_is(id, &['t', 's']) {
            LanguageId::TypeScript
        } else {
            LanguageId::Unknown
        }
    }

    pub fn language_server(&self) -> (server: Option<&str>)
        ensures
            server matches Some(s) ==> language_server_of(*self) == Some(s@),
            server is None ==> language_server_of(*self) is None,
    {
        match self {
            LanguageId::Rust => Some("rust-analyzer"),
            _ => None,
        }
    }

    /// The identifier of the language in the language server protocol.
    pub fn to_string(&self) -> (name: String)
        ensures
            name@ == language_name(*self),
    {
        match self {
            LanguageId::Rust => "rust",
            LanguageId::Python => "python",
            LanguageId::JavaScript => "javascript",
            LanguageId::TypeScript => "typescript",
            LanguageId::Unknown => "unknown",
        }.to_owned()
    }
}

/// What a language server is started with: the folder of the project and the
/// program to run.
#[derive(Clone)]
pub struct LspConfig {
    root_dir: String,
    pub language_server: String,
}

impl LspConfig {
    pub closed spec fn root_dir(&self) -> Seq<char> {
        self.root_dir@
    }

    pub closed spec fn server(&self) -> Seq<char> {
        self.language_server@
    }

    /// A configuration exists when language servers are enabled (the `--lsp`
    /// argument) and the language has a server.
    pub fn new(root_dir: String, language_id: LanguageId, lsp_enabled: bool) -> (config: Option<Self>)
        ensures
            config is Some <==> lsp_enabled && language_server_of(language_id) is Some,
            config matches Some(c) ==> c.root_dir() == root_dir@ && Some(c.server())
                == language_server_of(language_id),
    {
        if !lsp_enabled {
            return None;
        }
        let language_server = match language_id.language_server() {
            Some(server) => server.to_owned(),
            None => {
                return None;
            },
        };
        Some(Self { root_dir, language_server })
    }
}

/// The language servers that are running, each under the name of its
/// program, at most one per name.
pub struct LanguageServers<S> {
    names: Vec<String>,
    servers: Vec<S>,
}

impl<S> LanguageServers<S> {
    /// The names of the running servers, in the order they were started.
    pub closed spec fn names(&self) -> Seq<Seq<char>> {
        self.names@.map_values(|n: String| n@)
    }

    /// No name is there twice, and each name has its server.
    pub closed spec fn wf(&self) -> bool {
        &&& self.names().no_duplicates()
        &&& self.servers@.len() == self.names@.len()
    }

    /// The server running under `name`, if any.
    pub closed spec fn server_of(&self, name: Seq<char>) -> Option<S> {
        if self.names().contains(name) {
            Some(self.servers@[self.names().index_of(name)])
        } else {
            None
        }
    }

    /// No server runs yet.
    pub fn new() -> (servers: Self)
        ensures
            servers.wf(),
            servers.names() == Seq::<Seq<char>>::empty(),
            forall|name: Seq<char>| #[trigger] servers.server_of(name) is None,
    {
        let servers = LanguageServers { names: Vec::new(), servers: Vec::new() };
        assert(servers.names() =~= Seq::<Seq<char>>::empty());
        servers
    }

    fn position(&self, name: &str) -> (k: Option<usize>)
        requires
            self.wf(),
        ensures
            k is Some <==> self.names().contains(name@),
            k matches Some(k) ==> k < self.names@.len() && self.names().index_of(name@) == k,
    {
        let mut k: usize = 0;
        while k < self.names.len()
            invariant
                self.wf(),
                k <= self.names.len(),
                forall|j: int| 0 <= j < k ==> self.names()[j] != name@,
            decreases self.names.len() - k,
        {
            if str_equal(self.names[k].as_str(), name) {
                proof {
                    assert(self.names()[k as int] == name@);
                    let i = self.names().index_of(name@);
                    assert(self.names()[i] == name@);
                }
                return Some(k);
            }
            k = k + 1;
        }
        None
    }

    /// The server of a configuration, if it runs.
    pub fn lsp(&self, config: &LspConfig) -> (server: Option<&S>)
        requires
            self.wf(),
        ensures
            server matches Some(s) ==> self.server_of(config.server()) == Some(*s),
            server is None ==> self.server_of(config.server()) is None,
    {
        match self.position(config.language_server.as_str()) {
            Some(k) => Some(&self.servers[k]),
            None => None,
        }
    }

    /// Records a server under `language_server`, in place of one that ran
    /// under that name; the other servers stay.
    pub fn insert_lsp(&mut self, language_server: String, server: S)
        requires
            old(self).wf(),
        ensures
            final(self).wf(),
            final(self).server_of(language_server@) == Some(server),
            forall|other: Seq<char>|
                other != language_server@ ==> #[trigger] final(self).server_of(other) == old(self).server_of(other),
    {
        let ghost name = language_server@;
        let ghost old_names = self.names();
        match self.position(language_server.as_str()) {
            Some(k) => {
                self.servers.set(k, server);
                proof {
                    assert(self.names() == old_names);
                    assert forall|other: Seq<char>| other != name implies #[trigger] self.server_of(other)
                        == old(self).server_of(other) by {
                        if old_names.contains(other) {
                            let j = old_names.index_of(other);
                            assert(old_names[j] == other);
                            assert(j != k);
                        }
                    }
                }
            },
            None => {
                self.names.push(language_server);
                self.servers.push(server);
                proof {
                    assert(self.names() =~= old_names.push(name));
                    assert(self.names()[old_names.len() as int] == name);
                    assert(self.names().no_duplicates()) by {
                        assert forall|a: int, b: int|
                            0 <= a < self.names().len() && 0 <= b < self.names().len() && a != b implies self.names()[a]
                            != self.names()[b] by {
                            if a < old_names.len() && b < old_names.len() {
                                assert(old_names[a] != old_names[b]);
                            } else if a < old_names.len() {
                                assert(old_names[a] != name);
                            } else if b < old_names.len() {
                                assert(old_names[b] != name);
                            }
                        }
                    }
                    assert(self.names().index_of(name) == old_names.len()) by {
                        let i = self.names().index_of(name);
                        assert(self.names()[i] == name);
                        if i < old_names.len() {
                            assert(old_names[i] == name);
                        }
                    }
                    assert forall|other: Seq<char>| other != name implies #[trigger] self.server_of(other)
                        == old(self).server_of(other) by {
                        if old_names.contains(other) {
                            let j = old_names.index_of(other);
                            assert(old_names[j] == other);
                            assert(self.names()[j] == other);
                            let jn = self.names().index_of(other);
                            assert(self.names()[jn] == other);
                            if jn != j {
                                assert(self.names().no_duplicates());
                            }
                        } else {
                            assert(!self.names().contains(other)) by {
                                if self.names().contains(other) {
                                    let jn = choose|jn: int| 0 <= jn < self.names().len() && self.names()[jn] == other;
                                    assert(jn < old_names.len());
                                    assert(old_names[jn] == other);
                                }
                            }
                        }
                    }
                }
            },
        }
    }
}

/// What a progress notification of the indexing does here: a report gives
/// the status line to show (as `progress_update` writes it), and the end of
/// the progress marks the project indexed; a beginning does neither.
pub fn indexing_progress(value: WorkDoneProgress) -> (effect: (Option<String>, bool))
    ensures
        match value {
            WorkDoneProgress::Report { percentage, message } => effect.0 matches Some(status)
                && status@ == report_status(percentage, message),
            _ => effect.0 is None,
        },
        effect.1 == (value is End),
{
    let ghost v = value;
    match value {
        WorkDoneProgress::Report { percentage, message } => {
            let update = progress_update(WorkDoneProgress::Report { percentage, message });
            (Some(update.status), false)
        },
        WorkDoneProgress::End { .. } => (None, true),
        WorkDoneProgress::Begin { .. } => (None, false),
    }
}

} // verus!
