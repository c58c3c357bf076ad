use valin::lsp::client::{
    hover_content, is_indexing_token, lsp_step, progress_update, HoverContents, IndexingState,
    LspActionKind, LspStep, ProgressToken, WorkDoneProgress,
};
use valin::lsp::{client, indexing_progress, LanguageId, LanguageServers, LspConfig};

#[test]
fn languages_by_extension() {
    assert_eq!(LanguageId::parse("rs"), LanguageId::Rust);
    assert_eq!(LanguageId::parse("py"), LanguageId::Python);
    assert_eq!(LanguageId::parse("js"), LanguageId::JavaScript);
    assert_eq!(LanguageId::parse("ts"), LanguageId::TypeScript);
    assert_eq!(LanguageId::parse("md"), LanguageId::Unknown);
    assert_eq!(LanguageId::parse("RS"), LanguageId::Unknown);
    assert_eq!(LanguageId::default(), LanguageId::Unknown);
    assert_eq!(client::LanguageId::parse("md"), client::LanguageId::Markdown);
    assert_eq!(client::LanguageId::parse("toml"), client::LanguageId::Unknown);
}

#[test]
fn language_servers_and_names() {
    assert_eq!(LanguageId::Rust.language_server(), Some("rust-analyzer"));
    assert_eq!(LanguageId::Python.language_server(), None);
    assert_eq!(LanguageId::Rust.to_string(), "rust");
    assert_eq!(LanguageId::JavaScript.to_string(), "javascript");
    assert_eq!(LanguageId::Unknown.to_string(), "unknown");
    assert_eq!(client::LanguageId::Rust.language_server(), Some("rust-analyzer"));
    assert_eq!(client::LanguageId::TypeScript.to_string(), "TypeScript");
    assert_eq!(client::LanguageId::Markdown.to_string(), "Markdown");
}

#[test]
fn configurations_exist_for_servers() {
    let config = LspConfig::new("/p".to_string(), LanguageId::Rust, true).unwrap();
    assert_eq!(config.language_server, "rust-analyzer");
    assert!(LspConfig::new("/p".to_string(), LanguageId::Rust, false).is_none());
    assert!(LspConfig::new("/p".to_string(), LanguageId::Python, true).is_none());
    assert!(client::LspConfig::new(client::LanguageId::Rust).is_some());
    assert!(client::LspConfig::new(client::LanguageId::Markdown).is_none());
}

#[test]
fn indexing_token() {
    assert!(is_indexing_token("rustAnalyzer/Indexing"));
    assert!(!is_indexing_token("rustAnalyzer/Building"));
    assert!(!is_indexing_token(""));
}

#[test]
fn progress_status_lines() {
    let begin = progress_update(WorkDoneProgress::Begin {
        title: "Indexing".to_string(),
        message: Some("0/10".to_string()),
    });
    assert_eq!((begin.indexed, begin.status.as_str()), (Some(false), "Indexing 0/10"));
    let begin_alone = progress_update(WorkDoneProgress::Begin { title: "Indexing".to_string(), message: None });
    assert_eq!(begin_alone.status, "Indexing");
    let report = progress_update(WorkDoneProgress::Report {
        percentage: Some(42),
        message: Some("3/7 core".to_string()),
    });
    assert_eq!((report.indexed, report.status.as_str()), (None, "42% 3/7 core"));
    let small = progress_update(WorkDoneProgress::Report { percentage: Some(7), message: None });
    assert_eq!(small.status, "7% ");
    let done = progress_update(WorkDoneProgress::Report { percentage: Some(100), message: Some("x".to_string()) });
    assert_eq!(done.status, " x");
    let none = progress_update(WorkDoneProgress::Report { percentage: None, message: None });
    assert_eq!(none.status, " ");
    let end = progress_update(WorkDoneProgress::End { message: Some("done".to_string()) });
    assert_eq!((end.indexed, end.status.as_str()), (Some(true), "done"));
    let end_alone = progress_update(WorkDoneProgress::End { message: None });
    assert_eq!(end_alone.status, "");
}

#[test]
fn indexing_progress_of_the_first_client() {
    let (status, indexed) = indexing_progress(WorkDoneProgress::Report {
        percentage: Some(5),
        message: Some("a".to_string()),
    });
    assert_eq!((status.as_deref(), indexed), (Some("5% a"), false));
    let (status, indexed) = indexing_progress(WorkDoneProgress::End { message: None });
    assert_eq!((status, indexed), (None, true));
    let (status, indexed) = indexing_progress(WorkDoneProgress::Begin { title: "t".to_string(), message: None });
    assert_eq!((status, indexed), (None, false));
}

#[test]
fn hover_contents() {
    assert_eq!(hover_content(HoverContents::Markup("fn main()".to_string())), Some("fn main()".to_string()));
    assert_eq!(
        hover_content(HoverContents::Array(vec!["a".to_string(), "b".to_string(), "c".to_string()])),
        Some("a\nb\nc".to_string())
    );
    assert_eq!(hover_content(HoverContents::Array(vec![])), Some(String::new()));
    assert_eq!(hover_content(HoverContents::Scalar("()".to_string())), None);
    assert_eq!(hover_content(HoverContents::Array(vec!["(".to_string(), ")".to_string()])), Some("(\n)".to_string()));
}

#[test]
fn requests_to_the_server() {
    assert_eq!(lsp_step(LspActionKind::Initialize, false), LspStep::Initialize);
    assert_eq!(lsp_step(LspActionKind::Initialize, true), LspStep::ReportIndexing);
    assert_eq!(lsp_step(LspActionKind::Hover, true), LspStep::Hover);
    assert_eq!(lsp_step(LspActionKind::Hover, false), LspStep::Ignore);
    assert_eq!(lsp_step(LspActionKind::OpenFile, false), LspStep::OpenFile);
    assert_eq!(lsp_step(LspActionKind::CloseFile, true), LspStep::CloseFile);
    assert_eq!(lsp_step(LspActionKind::Clear, false), LspStep::Clear);
}

#[test]
fn the_indexing_flag_follows_the_notifications() {
    let indexing = || ProgressToken::Text("rustAnalyzer/Indexing".to_string());
    let mut state = IndexingState::new("rust-analyzer".to_string());
    assert!(!state.is_indexed());
    let sent = state.on_progress(indexing(), WorkDoneProgress::Begin { title: "Indexing".to_string(), message: Some("crates".to_string()) });
    assert_eq!(sent, Some(("rust-analyzer".to_string(), "Indexing crates".to_string())));
    assert!(!state.is_indexed());
    let sent = state.on_progress(indexing(), WorkDoneProgress::Report { percentage: Some(42), message: None });
    assert_eq!(sent, Some(("rust-analyzer".to_string(), "42% ".to_string())));
    let sent = state.on_progress(indexing(), WorkDoneProgress::End { message: Some("done".to_string()) });
    assert_eq!(sent, Some(("rust-analyzer".to_string(), "done".to_string())));
    assert!(state.is_indexed());
    // Other tokens change nothing and send nothing.
    assert_eq!(state.on_progress(ProgressToken::Number(3), WorkDoneProgress::Begin { title: "x".to_string(), message: None }), None);
    assert_eq!(state.on_progress(ProgressToken::Text("other".to_string()), WorkDoneProgress::Begin { title: "x".to_string(), message: None }), None);
    assert!(state.is_indexed());
    let sent = state.on_progress(indexing(), WorkDoneProgress::End { message: None });
    assert_eq!(sent, Some(("rust-analyzer".to_string(), String::new())));
    state.on_progress(indexing(), WorkDoneProgress::Begin { title: "Indexing".to_string(), message: None });
    assert!(!state.is_indexed());
}

#[test]
fn language_servers_by_name() {
    let rust = LspConfig::new("/p".to_string(), LanguageId::Rust, true).unwrap();
    let mut servers: LanguageServers<u32> = LanguageServers::new();
    assert_eq!(servers.lsp(&rust), None);
    servers.insert_lsp("rust-analyzer".to_string(), 1);
    assert_eq!(servers.lsp(&rust), Some(&1));
    servers.insert_lsp("pyright".to_string(), 2);
    servers.insert_lsp("rust-analyzer".to_string(), 3);
    assert_eq!(servers.lsp(&rust), Some(&3));
}
