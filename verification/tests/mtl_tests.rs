use pathtracer::mtl::create_texture;
use pathtracer::mtl::find_material;
use pathtracer::mtl::process_mtl_file;
use pathtracer::mtl::MtlError;
use pathtracer::mtl::MtlInfo;
use pathtracer::mtl::MtlParser;
use pathtracer::mtl::TextureSource;
use pathtracer::text::is_whitespace;
use pathtracer::text::split_whitespace;

fn lines(text: &str) -> Vec<String> {
    text.lines().map(|l| l.to_string()).collect()
}

fn triple(a: &str, b: &str, c: &str) -> Option<(String, String, String)> {
    Some((a.to_string(), b.to_string(), c.to_string()))
}

#[test]
fn whitespace_is_what_chars_say_it_is() {
    for u in 0..0x11_0000u32 {
        if let Some(c) = char::from_u32(u) {
            assert_eq!(is_whitespace(c), c.is_whitespace(), "U+{:04X}", u);
        }
    }
}

#[test]
fn lines_split_as_std_splits_them() {
    let samples = [
        "",
        "   ",
        "newmtl  wood",
        "\tKd 0.5   0.25 1 \r",
        "  map_Kd textures/wood grain.png  ",
        "a\u{00A0}b\u{2003}c\u{3000}d",
        "\u{0085}x\u{1680}",
        "# comment",
        "single",
        "é ü  日本語 \u{200B}zero",
    ];
    for s in samples.iter() {
        let want: Vec<String> = s.split_whitespace().map(|w| w.to_string()).collect();
        assert_eq!(split_whitespace(s), want, "{:?}", s);
    }
}

#[test]
fn material_file_is_read() {
    let text = "# Blender MTL File\n\
                \n\
                newmtl wood\n\
                Ns 225.0\n\
                Ka 1.0 1.0 1.0\n\
                Kd 0.8 0.4 0.1\n\
                map_Kd wood.png\n\
                map_bump wood_n.png\n\
                   \t \n\
                newmtl leaf\n\
                \tKd 0.1 0.9 0.2\n\
                map_d leaf_alpha.png\n\
                bump leaf_bump.png\n\
                newmtl plain\n";
    let list = process_mtl_file(&lines(text)).unwrap();
    assert_eq!(list.len(), 3);
    assert_eq!(list[0].name, "wood");
    assert_eq!(list[0].kd, triple("0.8", "0.4", "0.1"));
    assert_eq!(list[0].map_kd.as_deref(), Some("wood.png"));
    assert_eq!(list[0].map_bump.as_deref(), Some("wood_n.png"));
    assert_eq!(list[0].map_d, None);
    assert_eq!(list[1].name, "leaf");
    assert_eq!(list[1].kd, triple("0.1", "0.9", "0.2"));
    assert_eq!(list[1].map_kd, None);
    assert_eq!(list[1].map_bump.as_deref(), Some("leaf_bump.png"));
    assert_eq!(list[1].map_d.as_deref(), Some("leaf_alpha.png"));
    assert_eq!(list[2].name, "plain");
    assert_eq!(list[2].kd, None);
    assert_eq!(list[2].map_kd, None);
}

#[test]
fn lines_before_the_first_material_are_dropped() {
    let list = process_mtl_file(&lines("Kd 1 2 3\nmap_Kd early.png\nnewmtl a\nKd 4 5 6\n")).unwrap();
    assert_eq!(list.len(), 1);
    assert_eq!(list[0].name, "a");
    assert_eq!(list[0].kd, triple("4", "5", "6"));
    assert_eq!(list[0].map_kd, None);
    assert!(process_mtl_file(&lines("Kd 1 2 3\n# nothing else\n")).unwrap().is_empty());
    assert!(process_mtl_file(&Vec::new()).unwrap().is_empty());
}

#[test]
fn colour_needs_three_numbers() {
    let list = process_mtl_file(&lines("newmtl a\nKd 1 2\nnewmtl b\nKd 1 2 3 4\nnewmtl c\nKd x y z\n"))
        .unwrap();
    assert_eq!(list[0].kd, None);
    assert_eq!(list[1].kd, triple("1", "2", "3"));
    assert_eq!(list[2].kd, triple("x", "y", "z"));
}

#[test]
fn map_without_file_name_clears_the_map() {
    let list = process_mtl_file(&lines(
        "newmtl a\nmap_Kd one.png\nmap_Kd\nmap_bump two.png\nbump\nmap_d three.png\nmap_d   \n",
    ))
    .unwrap();
    assert_eq!(list[0].map_kd, None);
    assert_eq!(list[0].map_bump, None);
    assert_eq!(list[0].map_d, None);
    let list = process_mtl_file(&lines("newmtl a\nmap_Kd one.png rest\nmap_Kd two.png\n")).unwrap();
    assert_eq!(list[0].map_kd.as_deref(), Some("two.png"));
}

#[test]
fn comments_and_unknown_lines_change_nothing() {
    let list = process_mtl_file(&lines(
        "newmtl a\n#newmtl b\n  # Kd 1 2 3\nillum 2\nkd 1 2 3\nNEWMTL c\nmap_kd x.png\n",
    ))
    .unwrap();
    assert_eq!(list.len(), 1);
    assert_eq!(list[0].name, "a");
    assert_eq!(list[0].kd, None);
    assert_eq!(list[0].map_kd, None);
}

#[test]
fn material_without_name_is_refused() {
    assert_eq!(process_mtl_file(&lines("newmtl\n")).unwrap_err(), MtlError::MissingName(1));
    assert_eq!(
        process_mtl_file(&lines("# x\nnewmtl a\nKd 1 2 3\n  newmtl  \nnewmtl\n")).unwrap_err(),
        MtlError::MissingName(4)
    );
}

#[test]
fn parser_is_fed_line_by_line() {
    let mut parser = MtlParser::new();
    assert!(parser.feed("newmtl a"));
    assert!(parser.feed("Kd 1 2 3"));
    assert!(!parser.feed("newmtl"));
    assert_eq!(parser.now.name, "a");
    assert_eq!(parser.finished.len(), 0);
    assert!(parser.feed("newmtl b"));
    assert_eq!(parser.finished.len(), 1);
    assert_eq!(parser.now.name, "b");
    assert_eq!(parser.now.kd, None);
    let list = parser.finish();
    assert_eq!(list.len(), 2);
    assert_eq!(list[0].kd, triple("1", "2", "3"));
    assert_eq!(list[1].name, "b");
    assert!(MtlParser::new().finish().is_empty());
}

#[test]
fn lookup_finds_the_last_of_a_name() {
    let list = process_mtl_file(&lines(
        "newmtl a\nKd 1 1 1\nnewmtl b\nnewmtl a\nKd 2 2 2\nnewmtl c\n",
    ))
    .unwrap();
    assert_eq!(list.len(), 4);
    assert_eq!(find_material(&list, "a"), Some(2));
    assert_eq!(find_material(&list, "b"), Some(1));
    assert_eq!(find_material(&list, "c"), Some(3));
    assert_eq!(find_material(&list, "d"), None);
    assert_eq!(find_material(&list, ""), None);
    assert_eq!(find_material(&Vec::new(), "a"), None);
}

#[test]
fn texture_comes_from_the_colour_map_when_there_is_one() {
    let mapped = MtlInfo {
        name: "m".to_string(),
        kd: triple("1", "2", "3"),
        map_kd: Some("c.png".to_string()),
        map_bump: Some("b.png".to_string()),
        map_d: None,
    };
    match create_texture(&mapped) {
        TextureSource::Mapped { color, bump, alpha } => {
            assert_eq!(color, "c.png");
            assert_eq!(bump.as_deref(), Some("b.png"));
            assert_eq!(alpha, None);
        }
        other => panic!("unexpected {:?}", other),
    }
    let solid = MtlInfo {
        name: "s".to_string(),
        kd: triple("1", "2", "3"),
        map_kd: None,
        map_bump: Some("ignored.png".to_string()),
        map_d: None,
    };
    match create_texture(&solid) {
        TextureSource::Solid(kd) => assert_eq!(kd, triple("1", "2", "3")),
        other => panic!("unexpected {:?}", other),
    }
    let bare = MtlInfo { name: "n".to_string(), kd: None, map_kd: None, map_bump: None, map_d: None };
    assert!(matches!(create_texture(&bare), TextureSource::Solid(None)));
}
