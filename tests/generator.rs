use bullshit_generator::{
    choose_uniform, decide, fill_bosh, fill_famous, Action, BullshitGenerator, Corpus,
    CorpusError, FULL_STOP, INDENT_SPACE, MIN_PARAGRAPH,
};

fn strings(items: &[&str]) -> Vec<String> {
    items.iter().map(|s| s.to_string()).collect()
}

fn small_corpus() -> Corpus {
    Corpus::new(
        strings(&["a and b agree."]),
        strings(&["X"]),
        strings(&["Y"]),
        strings(&["x is great."]),
    )
    .unwrap()
}

/// Visible characters: all but the indents, the full stops and newlines of
/// the paragraph breaks, given that no fragment holds a newline.
fn visible_length(text: &str, indent: usize) -> usize {
    let breaks = text.chars().filter(|c| *c == '\n').count();
    text.chars().count() - indent * (breaks + 1) - breaks
}

#[test]
fn test_generate() {
    println!(
        "{}",
        BullshitGenerator::with_indent(2).unwrap().generate("黄油", u16::MAX as usize)
    );
}

#[test]
fn test_single_bullshit() {
    println!("{}", BullshitGenerator::with_indent(2).unwrap().get_bullshit("黄油"));
}

#[test]
fn test_single_famous() {
    println!("{}", BullshitGenerator::with_indent(2).unwrap().get_famous());
}

#[test]
fn scenario_small_corpus_fragments() {
    let g = BullshitGenerator::from_corpus(small_corpus(), 0);
    // Every `a` and `b` of the template is a placeholder, those inside words too.
    assert_eq!(g.get_famous(), "X Xnd Y Xgree.");
    assert_eq!(g.get_bullshit("tea"), "tea is great.");
}

#[test]
fn fill_famous_replaces_a_then_b() {
    assert_eq!(fill_famous("a说：b", "鲁迅", "完"), "鲁迅说：完");
    assert_eq!(fill_famous("aba", "1", "2"), "121");
    // A `b` brought in by the `before` fragment is replaced as well.
    assert_eq!(fill_famous("a!", "b", "Z"), "Z!");
    assert_eq!(fill_famous("", "1", "2"), "");
}

#[test]
fn fill_bosh_replaces_every_x() {
    assert_eq!(fill_bosh("x和x", "茶"), "茶和茶");
    assert_eq!(fill_bosh("无关", "茶"), "无关");
    assert_eq!(fill_bosh("x!", ""), "!");
}

#[test]
fn choose_uniform_single_and_empty() {
    let one = strings(&["only"]);
    for _ in 0..20 {
        assert_eq!(choose_uniform(&one), Ok("only".to_string()));
    }
    assert_eq!(choose_uniform(&Vec::new()), Err(CorpusError::EmptyCategory));
    let three = strings(&["p", "q", "r"]);
    for _ in 0..20 {
        let s = choose_uniform(&three).unwrap();
        assert!(three.contains(&s));
    }
}

#[test]
fn decide_follows_draw_and_paragraph() {
    assert_eq!(decide(0, 201), Action::Break);
    assert_eq!(decide(5, 201), Action::Break);
    assert_eq!(decide(6, 201), Action::Famous);
    assert_eq!(decide(0, 200), Action::Famous);
    assert_eq!(decide(20, 0), Action::Famous);
    assert_eq!(decide(21, 500), Action::Bullshit);
    assert_eq!(decide(99, 0), Action::Bullshit);
}

#[test]
fn corpus_rejects_empty_category() {
    let r = Corpus::new(strings(&["a b"]), Vec::new(), strings(&["Y"]), strings(&["x!"]));
    assert_eq!(r.err(), Some(CorpusError::EmptyCategory));
    let r = Corpus::new(strings(&["a b"]), strings(&["X"]), strings(&["Y"]), Vec::new());
    assert_eq!(r.err(), Some(CorpusError::EmptyCategory));
}

#[test]
fn corpus_rejects_hollow_template() {
    let r = Corpus::new(strings(&["ab"]), strings(&["X"]), strings(&["Y"]), strings(&["x!"]));
    assert_eq!(r.err(), Some(CorpusError::HollowTemplate));
    let r = Corpus::new(strings(&["a b"]), strings(&[""]), strings(&["Y"]), strings(&["x!"]));
    assert_eq!(r.err(), Some(CorpusError::HollowTemplate));
    let r = Corpus::new(strings(&["a b"]), strings(&["X"]), strings(&["Y"]), strings(&["xx"]));
    assert_eq!(r.err(), Some(CorpusError::HollowTemplate));
}

#[test]
fn corpus_from_json() {
    let ok = Corpus::from_json(
        r#"{"famous":["a b!"],"before":["X"],"after":["Y"],"bosh":["x?"]}"#,
    )
    .unwrap();
    assert_eq!(ok.famous, strings(&["a b!"]));
    assert_eq!(ok.bosh, strings(&["x?"]));
    assert_eq!(Corpus::from_json("{not json").err(), Some(CorpusError::Load));
    assert_eq!(
        Corpus::from_json(r#"{"famous":["a b!"],"before":["X"],"after":["Y"]}"#).err(),
        Some(CorpusError::Load)
    );
    assert_eq!(
        Corpus::from_json(r#"{"famous":["a b!"],"before":[1],"after":["Y"],"bosh":["x?"]}"#).err(),
        Some(CorpusError::Load)
    );
    assert_eq!(
        Corpus::from_json(r#"{"famous":[],"before":["X"],"after":["Y"],"bosh":["x?"]}"#).err(),
        Some(CorpusError::EmptyCategory)
    );
    assert!(Corpus::builtin().is_ok());
}

#[test]
fn generate_has_indent_breaks_and_full_stop() {
    let indent = 2;
    let text = BullshitGenerator::with_indent(indent).unwrap().generate("黄油", 3000);
    let chars: Vec<char> = text.chars().collect();
    assert!(chars[..indent].iter().all(|c| *c == INDENT_SPACE));
    assert_eq!(*chars.last().unwrap(), FULL_STOP);
    assert!(!text.ends_with(' ') && !text.ends_with('\n') && !text.ends_with(INDENT_SPACE));
    for (i, c) in chars.iter().enumerate() {
        if *c == '\n' {
            assert_eq!(chars[i - 1], FULL_STOP);
            assert!(chars[i + 1..i + 1 + indent].iter().all(|c| *c == INDENT_SPACE));
        }
    }
}

#[test]
fn generate_reaches_target_length() {
    for target in [0usize, 1, 150, 1000, 5000] {
        let text = BullshitGenerator::new().unwrap().generate("茶", target);
        let visible = visible_length(&text, 0);
        assert!(visible >= target);
        assert!(visible >= MIN_PARAGRAPH);
        let last_paragraph = text.rsplit('\n').next().unwrap().chars().count();
        assert!(last_paragraph >= MIN_PARAGRAPH);
        assert!(visible <= target + last_paragraph);
    }
}

#[test]
fn generate_small_corpus_exact_pieces() {
    let g = BullshitGenerator::from_corpus(small_corpus(), 1);
    let text = g.generate("tea", 500);
    assert!(text.starts_with('\u{3000}'));
    assert!(text.ends_with('。'));
    assert!(visible_length(&text, 1) >= 500);
    let body: String = text.chars().filter(|c| *c != '\u{3000}' && *c != '\n' && *c != '。').collect();
    assert!(body.contains("tea is great") || body.contains("X Xnd Y Xgree"));
}

#[test]
fn bullshit_has_no_placeholder_left() {
    let g = BullshitGenerator::with_indent(0).unwrap();
    for _ in 0..50 {
        assert!(!g.get_bullshit("黄油").contains('x'));
    }
    let g = BullshitGenerator::from_corpus(small_corpus(), 0);
    assert!(g.get_bullshit("黄油").contains("黄油"));
}

#[test]
fn famous_varies_and_has_no_placeholder_left() {
    let g = BullshitGenerator::new().unwrap();
    let first = g.get_famous();
    let mut varied = false;
    for _ in 0..60 {
        let f = g.get_famous();
        assert!(!f.contains('a') && !f.contains('b'));
        if f != first {
            varied = true;
        }
    }
    assert!(varied);
}

#[test]
fn first_line_has_exactly_the_indent() {
    let g = BullshitGenerator::from_corpus(small_corpus(), 2);
    let text = g.generate("tea", 300);
    let chars: Vec<char> = text.chars().collect();
    assert_eq!(chars[0], INDENT_SPACE);
    assert_eq!(chars[1], INDENT_SPACE);
    assert_ne!(chars[2], INDENT_SPACE);
    let plain = BullshitGenerator::new().unwrap().generate("茶", 10);
    assert!(!plain.starts_with(INDENT_SPACE));
}

#[test]
fn builtin_corpus_matches_its_document() {
    let c = Corpus::builtin().unwrap();
    let again = Corpus::from_json(bullshit_generator::BUILTIN_CORPUS).unwrap();
    assert_eq!(c.famous, again.famous);
    assert_eq!(c.bosh.len(), again.bosh.len());
    assert!(!c.before.is_empty() && !c.after.is_empty());
    assert_eq!(
        Corpus::from_json(r#"{"famous":"a b","before":["X"],"after":["Y"],"bosh":["x?"]}"#).err(),
        Some(CorpusError::Load)
    );
}
