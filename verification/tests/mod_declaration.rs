use language_onboarding::mod_declaration::{declare_module, find_mod_insertion_offset};
use language_onboarding::text::is_white_space;

/// Declares the module in the file with stem `file_stem` in `contents`.
fn attached(contents: &str, file_stem: &str) -> String {
    match declare_module(contents, file_stem) {
        Some(edit) => {
            assert!(contents.is_char_boundary(edit.offset));
            edit.apply(contents)
        }
        None => contents.to_string(),
    }
}

/// The offset, line by line with the standard library.
fn expected_offset(contents: &str) -> usize {
    let mut offset = 0;
    let mut line_start = 0;
    for line in contents.lines() {
        let trimmed = line.trim();
        line_start += line.len() + 1;
        if trimmed.starts_with("mod ") && trimmed.ends_with(';') {
            offset = line_start.min(contents.len());
        }
    }
    offset
}

#[test]
fn white_space_is_unicode_white_space() {
    for code in 0..=0x10ffff {
        if let Some(c) = char::from_u32(code) {
            assert_eq!(is_white_space(c), c.is_whitespace(), "{:?}", c);
        }
    }
}

#[test]
fn offset_is_behind_the_last_declaration() {
    assert_eq!(find_mod_insertion_offset(""), 0);
    assert_eq!(find_mod_insertion_offset("// root module\n"), 0);
    assert_eq!(find_mod_insertion_offset("mod existing;\n"), 14);
    assert_eq!(find_mod_insertion_offset("use a;\nmod a;\nmod b;\n\nfn f() {}\n"), 21);
    assert_eq!(find_mod_insertion_offset("mod a;\nfn f() {}\n    mod b;   \nx"), 31);
    assert_eq!(find_mod_insertion_offset("// \u{e9}\nmod \u{3b1};\n"), 14);
}

#[test]
fn offset_ends_with_the_text() {
    assert_eq!(find_mod_insertion_offset("mod a;"), 6);
    assert_eq!(find_mod_insertion_offset("\u{3000}mod a;\u{a0}"), 11);
}

#[test]
fn other_lines_declare_nothing() {
    for line in ["pub mod a;", "mod a {", "mod a; // a", "mod", "mod;", "model;", "Mod a;", "// mod a;"]
    {
        assert_eq!(find_mod_insertion_offset(line), 0, "{}", line);
    }
    assert_eq!(find_mod_insertion_offset("mod ;\n"), 6);
}

#[test]
fn offset_counts_carriage_returns_out() {
    assert_eq!(find_mod_insertion_offset("mod a;\r\nmod b;\r\n"), 14);
    assert_eq!(find_mod_insertion_offset("x\r\nmod a;"), 9);
    assert_eq!(find_mod_insertion_offset("mod a;\n\r\n"), 7);
}

#[test]
fn offset_agrees_on_many_texts() {
    let pieces = ["mod a;", "mod \u{e9};", "\n", "\r\n", "\r", " ", "\u{2003}", "x", ";"];
    let mut texts = vec![String::new()];
    for _ in 0..5 {
        let mut longer = vec![];
        for text in &texts {
            assert_eq!(find_mod_insertion_offset(text), expected_offset(text), "{:?}", text);
            for piece in &pieces {
                longer.push(format!("{}{}", text, piece));
            }
        }
        texts = longer;
    }
    for text in &texts {
        assert_eq!(find_mod_insertion_offset(text), expected_offset(text), "{:?}", text);
    }
}

#[test]
fn declaration_goes_behind_the_others() {
    let contents = "use x;\nmod a;\n\nfn f() {}\n";
    let edit = declare_module(contents, "b").unwrap();
    assert_eq!(edit.offset, 14);
    assert_eq!(edit.new_text, "mod b;\n");
    assert_eq!(attached(contents, "b"), "use x;\nmod a;\nmod b;\n\nfn f() {}\n");
}

#[test]
fn declaration_goes_first_where_there_are_none() {
    assert_eq!(attached("// root module\n", "orphan"), "mod orphan;\n// root module\n");
    assert_eq!(attached("", "orphan"), "mod orphan;\n");
}

#[test]
fn declarations_keep_their_order() {
    let contents = attached(&attached(&attached("", "a"), "b"), "c");
    assert_eq!(contents, "mod a;\nmod b;\nmod c;\n");
}

#[test]
fn declaring_twice_changes_nothing() {
    for contents in ["", "mod a;\n", "mod a;", "fn f() {}\r\n", "// \u{e9}\nmod \u{e9};\n"] {
        let once = attached(contents, "orphan");
        assert!(once.contains("mod orphan;"));
        assert_eq!(attached(&once, "orphan"), once);
    }
}

#[test]
fn declared_anywhere_is_declared() {
    for contents in ["pub mod orphan;\n", "// mod orphan;", "mod orphan; // x", "a mod orphan;b"] {
        assert!(declare_module(contents, "orphan").is_none());
    }
    assert!(declare_module("mod orphans;\nmod  orphan;\nmod orphan ;\n", "orphan").is_some());
}

#[test]
fn other_declarations_stay() {
    let contents = "mod a;\nmod b;\nfn f() {}\nmod c;";
    let result = attached(contents, "orphan");
    for declaration in ["mod a;", "mod b;", "mod c;", "fn f() {}", "mod orphan;"] {
        assert!(result.contains(declaration), "{}", declaration);
    }
    assert_eq!(result, "mod a;\nmod b;\nfn f() {}\nmod c;mod orphan;\n");
}
