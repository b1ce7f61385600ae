use dirtree::export::{glyph_origin, glyph_pixel, image_height, mermaid_source, sanitize_id, should_draw_pixel};

#[test]
fn ids_replace_separators() {
    assert_eq!(sanitize_id("my file-name.txt"), "my_file_name_txt");
    assert_eq!(sanitize_id("plain"), "plain");
    assert_eq!(sanitize_id(""), "");
}

#[test]
fn graph_source_has_one_edge_per_pair() {
    let rels = vec![
        ("root".to_string(), "a.txt".to_string()),
        ("root".to_string(), "sub-dir".to_string()),
    ];
    assert_eq!(
        mermaid_source(&rels),
        "graph TD\n    root[root] --> a_txt[a.txt]\n    root[root] --> sub_dir[sub-dir]\n"
    );
    assert_eq!(mermaid_source(&vec![]), "graph TD\n");
}

#[test]
fn dot_patterns() {
    assert!(should_draw_pixel('.', 2, 6));
    assert!(!should_draw_pixel('.', 2, 5));
    assert!(should_draw_pixel('/', 3, 3));
    assert!(should_draw_pixel('\\', 3, 4));
    assert!(should_draw_pixel('_', 0, 7));
    assert!(should_draw_pixel('-', 5, 4));
    assert!(should_draw_pixel('|', 2, 0));
    assert!(!should_draw_pixel('a', 2, 2));
}

#[test]
fn glyph_cells() {
    assert_eq!(glyph_pixel('│', 3, 11), Some(0));
    assert_eq!(glyph_pixel('│', 4, 0), None);
    assert_eq!(glyph_pixel('─', 7, 6), Some(0));
    assert_eq!(glyph_pixel('├', 7, 6), Some(0));
    assert_eq!(glyph_pixel('├', 3, 10), Some(0));
    assert_eq!(glyph_pixel('└', 3, 10), None);
    assert_eq!(glyph_pixel('└', 3, 2), Some(0));
    assert_eq!(glyph_pixel('.', 2, 6), Some(0));
    assert_eq!(glyph_pixel('a', 2, 6), None);
}

#[test]
fn image_geometry() {
    assert_eq!(image_height(0), Some(40));
    assert_eq!(image_height(10), Some(190));
    assert_eq!(image_height(u32::MAX), None);
    assert_eq!(glyph_origin(0, 0), Some((10, 10)));
    assert_eq!(glyph_origin(2, 3), Some((34, 40)));
    assert_eq!(glyph_origin(0, u32::MAX), None);
}
