use human_bytes::human_bytes;
use lsx::{
    color_for_mime, column_gap, entry_label, get_type_color, has_prefix, plan_listing,
    split_name, str_equals, two_columns, Entry, ExtColor, Label, Row, Style,
};

fn texts(l: &Label) -> Vec<String> {
    l.segments.iter().map(|s| s.text.clone()).collect()
}

fn styles(l: &Label) -> Vec<Style> {
    l.segments.iter().map(|s| s.style).collect()
}

fn entry(name: &str, is_dir: bool, size: Option<&str>) -> Entry {
    Entry { name: name.to_string(), is_dir, size: size.map(|s| s.to_string()) }
}

#[test]
fn split_plain_extension() {
    let p = split_name("report.pdf");
    assert_eq!(p.stem, "report");
    assert_eq!(p.ext, Some("pdf".to_string()));
}

#[test]
fn split_takes_last_dot() {
    let p = split_name("archive.tar.gz");
    assert_eq!(p.stem, "archive.tar");
    assert_eq!(p.ext, Some("gz".to_string()));
}

#[test]
fn split_without_extension() {
    let p = split_name("Makefile");
    assert_eq!(p.stem, "Makefile");
    assert_eq!(p.ext, None);
}

#[test]
fn split_hidden_file_has_no_extension() {
    let p = split_name(".bashrc");
    assert_eq!(p.stem, ".bashrc");
    assert_eq!(p.ext, None);
}

#[test]
fn split_trailing_dot_gives_empty_extension() {
    let p = split_name("notes.");
    assert_eq!(p.stem, "notes");
    assert_eq!(p.ext, Some(String::new()));
}

#[test]
fn split_parent_dir_name() {
    let p = split_name("..");
    assert_eq!(p.stem, "..");
    assert_eq!(p.ext, None);
}

#[test]
fn split_counts_characters_not_bytes() {
    let p = split_name("café.txt");
    assert_eq!(p.stem, "café");
    assert_eq!(p.ext, Some("txt".to_string()));
}

#[test]
fn mime_classes() {
    assert_eq!(color_for_mime("application/pdf"), ExtColor::Pdf);
    assert_eq!(color_for_mime("application/x-pdf"), ExtColor::Pdf);
    assert_eq!(color_for_mime("application/zip"), ExtColor::Archive);
    assert_eq!(color_for_mime("multipart/x-zip"), ExtColor::Archive);
    assert_eq!(
        color_for_mime("application/vnd.openxmlformats-officedocument.presentationml.presentation"),
        ExtColor::Presentation
    );
    assert_eq!(color_for_mime("application/vnd.ms-excel"), ExtColor::Spreadsheet);
    assert_eq!(color_for_mime("application/msword"), ExtColor::Document);
    assert_eq!(color_for_mime("audio/mpeg"), ExtColor::Audio);
    assert_eq!(color_for_mime("video/mp4"), ExtColor::Video);
    assert_eq!(color_for_mime("image/png"), ExtColor::Image);
    assert_eq!(color_for_mime("application/json"), ExtColor::Application);
    assert_eq!(color_for_mime("text/plain"), ExtColor::Plain);
    assert_eq!(color_for_mime("text/html"), ExtColor::Plain);
    assert_eq!(color_for_mime(""), ExtColor::Plain);
}

#[test]
fn mime_exact_match_required() {
    assert_eq!(color_for_mime("application/pdfx"), ExtColor::Application);
    assert_eq!(color_for_mime("audi"), ExtColor::Plain);
}

#[test]
fn extension_classes_through_mime_guess() {
    assert_eq!(get_type_color("pdf"), ExtColor::Pdf);
    assert_eq!(get_type_color("zip"), ExtColor::Archive);
    assert_eq!(get_type_color("pptx"), ExtColor::Presentation);
    assert_eq!(get_type_color("xlsx"), ExtColor::Spreadsheet);
    assert_eq!(get_type_color("docx"), ExtColor::Document);
    assert_eq!(get_type_color("mp3"), ExtColor::Audio);
    assert_eq!(get_type_color("mp4"), ExtColor::Video);
    assert_eq!(get_type_color("jpg"), ExtColor::Image);
    assert_eq!(get_type_color("json"), ExtColor::Application);
    assert_eq!(get_type_color("txt"), ExtColor::Plain);
}

#[test]
fn unknown_and_empty_extensions_are_plain() {
    assert_eq!(get_type_color(""), ExtColor::Plain);
    assert_eq!(get_type_color("zzzunknownzzz"), ExtColor::Plain);
}

#[test]
fn class_colours() {
    assert_eq!(ExtColor::Pdf.rgb(), Some((230, 25, 25)));
    assert_eq!(ExtColor::Archive.rgb(), Some((179, 43, 149)));
    assert_eq!(ExtColor::Presentation.rgb(), Some((235, 111, 16)));
    assert_eq!(ExtColor::Spreadsheet.rgb(), Some((51, 135, 58)));
    assert_eq!(ExtColor::Document.rgb(), Some((73, 67, 232)));
    assert_eq!(ExtColor::Audio.rgb(), Some((25, 230, 203)));
    assert_eq!(ExtColor::Video.rgb(), Some((134, 25, 230)));
    assert_eq!(ExtColor::Image.rgb(), Some((237, 208, 17)));
    assert_eq!(ExtColor::Application.rgb(), Some((250, 206, 145)));
    assert_eq!(ExtColor::Plain.rgb(), None);
}

#[test]
fn directory_renders_with_slash() {
    let l = entry_label("photos", true, None);
    assert_eq!(texts(&l), vec!["/", "photos"]);
    assert_eq!(styles(&l), vec![Style::Slash, Style::DirName]);
    assert_eq!(l.width(), 7);
}

#[test]
fn directory_with_extension_is_not_a_file() {
    let l = entry_label("photos.jpg", true, None);
    assert_eq!(texts(&l), vec!["/", "photos.jpg"]);
    assert_eq!(styles(&l), vec![Style::Slash, Style::DirName]);
}

#[test]
fn file_without_extension_is_bare() {
    let l = entry_label("Makefile", false, None);
    assert_eq!(texts(&l), vec!["Makefile"]);
    assert_eq!(styles(&l), vec![Style::Bare]);
    assert_eq!(l.width(), 8);
}

#[test]
fn file_with_extension_is_coloured() {
    let l = entry_label("a.txt", false, None);
    assert_eq!(texts(&l), vec!["a", ".", "txt"]);
    assert_eq!(styles(&l), vec![Style::Stem, Style::Plain, Style::Ext(ExtColor::Plain)]);
    assert_eq!(l.width(), 5);
}

#[test]
fn report_pdf_in_size_mode() {
    let size = human_bytes(2048u32);
    let l = entry_label("report.pdf", false, Some(size.as_str()));
    assert_eq!(texts(&l), vec!["report", ".", "pdf", " - ", size.as_str()]);
    assert_eq!(
        styles(&l),
        vec![Style::Stem, Style::Plain, Style::Ext(ExtColor::Pdf), Style::Plain, Style::Size]
    );
    assert_eq!(size, "2 KiB");
    let units = [
        "B", "KB", "MB", "GB", "TB", "PB", "EB", "ZB", "YB", "KiB", "MiB", "GiB", "TiB", "PiB",
        "EiB", "ZiB", "YiB",
    ];
    assert!(units.iter().any(|u| size.ends_with(&format!(" {}", u))));
    assert_eq!(l.width(), 10 + 3 + size.chars().count());
}

#[test]
fn directory_in_size_mode() {
    let l = entry_label("photos", true, Some("1.2 MB"));
    assert_eq!(texts(&l), vec!["/", "photos", " - ", "1.2 MB"]);
    assert_eq!(styles(&l), vec![Style::Slash, Style::DirName, Style::Plain, Style::Size]);
    assert_eq!(l.width(), 16);
}

#[test]
fn width_counts_characters() {
    let l = entry_label("naïve.md", false, None);
    assert_eq!(l.width(), 8);
}

#[test]
fn empty_layout_has_no_rows() {
    let c = two_columns(&vec![]);
    assert!(c.rows.is_empty());
    assert_eq!(c.left_width, 0);
    assert_eq!(c.right_width, 0);
}

#[test]
fn single_entry_stands_alone() {
    let c = two_columns(&vec![4]);
    assert_eq!(c.rows, vec![Row { left: 0, left_pad: 0, right: None, right_pad: 0 }]);
    assert_eq!(c.left_width, 4);
    assert_eq!(c.right_width, 0);
}

#[test]
fn odd_count_splits_larger_half_left() {
    let c = two_columns(&vec![5, 5, 6]);
    assert_eq!(c.left_width, 5);
    assert_eq!(c.right_width, 6);
    assert_eq!(
        c.rows,
        vec![
            Row { left: 0, left_pad: 0, right: Some(2), right_pad: 0 },
            Row { left: 1, left_pad: 0, right: None, right_pad: 0 },
        ]
    );
}

#[test]
fn even_count_pads_each_column() {
    let c = two_columns(&vec![3, 7, 2, 9]);
    assert_eq!(c.left_width, 7);
    assert_eq!(c.right_width, 9);
    assert_eq!(
        c.rows,
        vec![
            Row { left: 0, left_pad: 4, right: Some(2), right_pad: 7 },
            Row { left: 1, left_pad: 0, right: Some(3), right_pad: 0 },
        ]
    );
}

#[test]
fn every_entry_placed_once() {
    for n in 0..12usize {
        let widths: Vec<usize> = (0..n).map(|i| (i * 7) % 5 + 1).collect();
        let c = two_columns(&widths);
        assert_eq!(c.rows.len(), (n + 1) / 2);
        let mut seen = vec![0usize; n];
        for r in &c.rows {
            seen[r.left] += 1;
            if let Some(k) = r.right {
                seen[k] += 1;
            }
        }
        assert!(seen.iter().all(|&s| s == 1));
        assert_eq!(c.rows.iter().filter(|r| r.right.is_some()).count(), n / 2);
    }
}

#[test]
fn rows_align_to_column_width() {
    let widths = vec![1, 10, 4, 3, 8, 2, 6];
    let c = two_columns(&widths);
    for r in &c.rows {
        assert_eq!(widths[r.left] + r.left_pad, c.left_width);
        if let Some(k) = r.right {
            assert_eq!(widths[k] + r.right_pad, c.right_width);
        }
    }
    assert_eq!(c.left_width, 10);
    assert_eq!(c.right_width, 8);
}

#[test]
fn listing_of_three_entries() {
    let entries = vec![entry("a.txt", false, None), entry("b.jpg", false, None), entry("subdir", true, None)];
    let l = plan_listing(&entries, false);
    assert_eq!(l.labels.len(), 3);
    assert_eq!(texts(&l.labels[0]), vec!["a", ".", "txt"]);
    assert_eq!(texts(&l.labels[1]), vec!["b", ".", "jpg"]);
    assert_eq!(styles(&l.labels[1])[2], Style::Ext(ExtColor::Image));
    assert_eq!(texts(&l.labels[2]), vec!["/", "subdir"]);
    assert_eq!(l.columns.left_width, 5);
    assert_eq!(l.columns.right_width, 7);
    assert_eq!(
        l.columns.rows,
        vec![
            Row { left: 0, left_pad: 0, right: Some(2), right_pad: 0 },
            Row { left: 1, left_pad: 0, right: None, right_pad: 0 },
        ]
    );
    assert_eq!(l.gap, 3);
}

#[test]
fn listing_of_empty_directory() {
    let l = plan_listing(&vec![], false);
    assert!(l.labels.is_empty());
    assert!(l.columns.rows.is_empty());
}

#[test]
fn listing_in_size_mode_shows_sizes() {
    let entries = vec![entry("photos", true, Some("12 KB")), entry("Makefile", false, Some("3 B"))];
    let l = plan_listing(&entries, true);
    assert_eq!(texts(&l.labels[0]), vec!["/", "photos", " - ", "12 KB"]);
    assert_eq!(texts(&l.labels[1]), vec!["Makefile", " - ", "3 B"]);
    assert_eq!(l.columns.left_width, 15);
    assert_eq!(l.columns.right_width, 14);
    assert_eq!(l.gap, 4);
}

#[test]
fn listing_without_size_mode_hides_sizes() {
    let entries = vec![entry("photos", true, Some("12 KB"))];
    let l = plan_listing(&entries, false);
    assert_eq!(texts(&l.labels[0]), vec!["/", "photos"]);
}

#[test]
fn gaps() {
    assert_eq!(column_gap(true), 4);
    assert_eq!(column_gap(false), 3);
}

#[test]
fn string_helpers() {
    assert!(str_equals("abc", "abc"));
    assert!(!str_equals("abc", "abd"));
    assert!(!str_equals("abc", "ab"));
    assert!(has_prefix("audio/mpeg", "audio"));
    assert!(has_prefix("audio", ""));
    assert!(!has_prefix("aud", "audio"));
    assert!(!has_prefix("video/mp4", "audio"));
}
