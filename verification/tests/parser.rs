use ropey::Rope;
use valin::parser::{parse, SyntaxBlocks, SyntaxType, TextNode};

fn kinds(text: &str) -> Vec<Vec<(SyntaxType, String)>> {
    let rope = Rope::from_str(text);
    let mut blocks = SyntaxBlocks::new();
    parse(&rope, &mut blocks);
    let mut out = Vec::new();
    for n in 0..blocks.len() {
        let mut line = Vec::new();
        for (kind, node) in blocks.get_line(n) {
            let shown = match node {
                TextNode::Range(r) => rope.slice(r.clone()).to_string(),
                TextNode::LineOfChars { len, char } => std::iter::repeat(*char).take(*len).collect(),
            };
            line.push((*kind, shown));
        }
        out.push(line);
    }
    out
}

#[test]
fn parse_keywords_and_punctuation() {
    let lines = kinds("let x = 1;");
    assert_eq!(lines.len(), 1);
    assert_eq!(
        lines[0],
        vec![
            (SyntaxType::Keyword, "let".to_string()),
            (SyntaxType::Unknown, " ".to_string()),
            (SyntaxType::Unknown, "x".to_string()),
            (SyntaxType::Unknown, " ".to_string()),
            (SyntaxType::Punctuation, "=".to_string()),
            (SyntaxType::Unknown, " ".to_string()),
            (SyntaxType::SpecialKeyword, "1".to_string()),
            (SyntaxType::Punctuation, ";".to_string()),
        ]
    );
}

#[test]
fn lines_of_a_text() {
    assert_eq!(kinds("").len(), 0);
    assert_eq!(kinds("a\nb").len(), 2);
    assert_eq!(kinds("a\n").len(), 2);
    assert_eq!(kinds("a\r\nb\n\nc").len(), 4);
}

#[test]
fn strings_and_comments() {
    let lines = kinds("let s = \"a b\"; // done");
    let line = &lines[0];
    assert!(line.contains(&(SyntaxType::String, "\"a b\"".to_string())));
    assert!(line.contains(&(SyntaxType::Comment, "// done".to_string())));
    // The second slash also stays pending as a word, and is flushed after
    // the comment at the end of the line.
    assert_eq!(line.last().unwrap(), &(SyntaxType::SpecialKeyword, "/".to_string()));
}

#[test]
fn colors_of_kinds() {
    assert_eq!(SyntaxType::Keyword.color(), "rgb(251, 60, 44)");
    assert_eq!(SyntaxType::Comment.color(), "gray");
    assert_eq!(SyntaxType::SpaceMark.color(), "rgb(223, 191, 142, 0.2)");
}

#[test]
fn blocks_can_be_cleared() {
    let rope = Rope::from_str("fn main() {}\n");
    let mut blocks = SyntaxBlocks::new();
    parse(&rope, &mut blocks);
    assert_eq!(blocks.len(), 2);
    blocks.clear();
    assert_eq!(blocks.len(), 0);
}

#[test]
fn marked_tokens_are_of_their_class() {
    let keywords = [
        "mod", "use", "impl", "if", "let", "fn", "struct", "enum", "const", "pub", "crate", "else", "mut", "for",
        "i8", "u8", "i16", "u16", "i32", "u32", "f32", "i64", "u64", "f64", "i128", "u128", "usize", "isize",
        "move", "async", "in", "of", "dyn", "type", "match",
    ];
    let text = "pub fn main() {\n    let mut v: Vec<u8> = vec![];\n    for x in self.items { if true { MAX } }\n}\n";
    for line in kinds(text) {
        for (kind, shown) in line {
            match kind {
                SyntaxType::Keyword => assert!(keywords.contains(&shown.trim()), "{shown}"),
                SyntaxType::SpecialKeyword => assert!(
                    ["self", "Self", "false", "true"].contains(&shown.trim()) || shown.to_uppercase() == shown,
                    "{shown}"
                ),
                SyntaxType::Punctuation => {
                    assert_eq!(shown.chars().count(), 1);
                    assert!(".=;:',#&-+^\\".contains(&shown));
                }
                SyntaxType::Punctuation2 => {
                    assert_eq!(shown.chars().count(), 1);
                    assert!("{}()<>[]".contains(&shown));
                }
                _ => {}
            }
        }
    }
}
