use imgc::format::ImageFormat;
use imgc::paths::{extension_of, first_collision, output_path, output_paths, CandidatePath};

fn candidate(path: &str) -> CandidatePath {
    CandidatePath::new(path.to_string(), ImageFormat::Png).unwrap()
}

#[test]
fn candidate_keeps_path_and_format() {
    let c = CandidatePath::new("pics/a.jpg".to_string(), ImageFormat::Jpeg).unwrap();
    assert_eq!(c.path(), "pics/a.jpg");
    assert_eq!(c.format(), ImageFormat::Jpeg);
}

#[test]
fn candidate_needs_a_file_name() {
    assert!(CandidatePath::new("".to_string(), ImageFormat::Png).is_none());
    assert!(CandidatePath::new("/".to_string(), ImageFormat::Png).is_none());
    assert!(CandidatePath::new("//".to_string(), ImageFormat::Png).is_none());
    assert!(CandidatePath::new(".".to_string(), ImageFormat::Png).is_none());
    assert!(CandidatePath::new("./".to_string(), ImageFormat::Png).is_none());
    assert!(CandidatePath::new("./.".to_string(), ImageFormat::Png).is_none());
    assert!(CandidatePath::new("/.".to_string(), ImageFormat::Png).is_none());
    assert!(CandidatePath::new("..".to_string(), ImageFormat::Png).is_none());
    assert!(CandidatePath::new("../".to_string(), ImageFormat::Png).is_none());
    assert!(CandidatePath::new("pics/..".to_string(), ImageFormat::Png).is_none());
    assert!(CandidatePath::new("pics/../.".to_string(), ImageFormat::Png).is_none());
    assert!(CandidatePath::new("pics/".to_string(), ImageFormat::Png).is_some());
    assert!(CandidatePath::new("pics/.".to_string(), ImageFormat::Png).is_some());
    assert!(CandidatePath::new("...".to_string(), ImageFormat::Png).is_some());
    assert!(CandidatePath::new(".a".to_string(), ImageFormat::Png).is_some());
    assert!(CandidatePath::new("a".to_string(), ImageFormat::Png).is_some());
    assert!(CandidatePath::new("../a".to_string(), ImageFormat::Png).is_some());
}

const TRICKY: [&str; 40] = [
    "", "/", "//", ".", "./", "./.", "/.", "..", "../", "a/..", "a/../.", "a/.././", "...",
    "a", "a/", "a//", "a/.", "a/./", "a/.//./", "a.png", "a.png/", "x/b.png/", "x/b.png/.",
    "x/b.png//./", "x//b.png", "/b.png", "/.png", ".png", ".a.png", "a.", "a..", "a..png",
    "x.d/a", "x.d/a.b.c", "x/.hidden", "x/..hidden", "./a.png", "../a.png", ".//a", "é/ö.ü",
];

#[test]
fn file_names_are_those_of_std() {
    for path in TRICKY {
        let named = CandidatePath::new(path.to_string(), ImageFormat::Png).is_some();
        assert_eq!(named, std::path::Path::new(path).file_name().is_some(), "{:?}", path);
    }
}

#[test]
fn file_name_is_the_last_component() {
    assert_eq!(candidate("pics/a.png").file_name(), "a.png");
    assert_eq!(candidate("a.png").file_name(), "a.png");
    assert_eq!(candidate("x/b.png/").file_name(), "b.png");
    assert_eq!(candidate("x/b.png/.//").file_name(), "b.png");
    assert_eq!(candidate("/x").file_name(), "x");
    for path in TRICKY {
        if let Some(c) = CandidatePath::new(path.to_string(), ImageFormat::Png) {
            let expected = std::path::Path::new(path).file_name().unwrap().to_str().unwrap();
            assert_eq!(c.file_name(), expected, "{:?}", path);
        }
    }
}

#[test]
fn extensions_are_those_of_std() {
    for path in TRICKY {
        let expected =
            std::path::Path::new(path).extension().map(|e| e.to_str().unwrap().to_string());
        assert_eq!(extension_of(path), expected, "{:?}", path);
    }
}

#[test]
fn in_place_outputs_are_those_of_std() {
    for path in TRICKY {
        // std loses a stem that is a single dot; the mapper keeps every stem
        if std::path::Path::new(path).file_stem().and_then(|s| s.to_str()) == Some(".") {
            continue;
        }
        if let Some(c) = CandidatePath::new(path.to_string(), ImageFormat::Png) {
            let expected = std::path::Path::new(path).with_extension("webp");
            assert_eq!(
                output_path(&c, "", &ImageFormat::Webp),
                expected.to_str().unwrap(),
                "{:?}",
                path
            );
        }
    }
}

#[test]
fn a_path_that_ends_in_a_separator_keeps_its_file_name() {
    let c = candidate("x/b.png/");
    assert_eq!(c.path(), "x/b.png/");
    assert_eq!(output_path(&c, "", &ImageFormat::Webp), "x/b.webp");
    assert_eq!(output_path(&c, "out", &ImageFormat::Webp), "out/b.webp");
    assert_eq!(output_path(&candidate("x/b.png/."), "", &ImageFormat::Avif), "x/b.avif");
}

#[test]
fn a_stem_that_is_a_single_dot_is_kept() {
    assert_eq!(output_path(&candidate("x/..hidden"), "", &ImageFormat::Webp), "x/..webp");
    assert_eq!(output_path(&candidate("x/..hidden"), "out", &ImageFormat::Webp), "out/..webp");
}

#[test]
fn in_place_replaces_the_extension() {
    let out = output_path(&candidate("pics/holiday/a.png"), "", &ImageFormat::Webp);
    assert_eq!(out, "pics/holiday/a.webp");
    let out = output_path(&candidate("a.png"), "", &ImageFormat::Avif);
    assert_eq!(out, "a.avif");
    let out = output_path(&candidate("/abs/b.JPG"), "", &ImageFormat::Jpeg);
    assert_eq!(out, "/abs/b.jpeg");
}

#[test]
fn in_place_keeps_directory_and_stem() {
    let input = "pics/summer.2024/beach.day.png";
    let out = output_path(&candidate(input), "", &ImageFormat::Webp);
    assert_eq!(out, "pics/summer.2024/beach.day.webp");
    assert_eq!(extension_of(&out), Some("webp".to_string()));
    assert_eq!(
        std::path::Path::new(&out).parent(),
        std::path::Path::new(input).parent()
    );
    assert_eq!(
        std::path::Path::new(&out).file_stem(),
        std::path::Path::new(input).file_stem()
    );
}

#[test]
fn in_place_adds_an_extension_where_there_is_none() {
    assert_eq!(output_path(&candidate("pics/scan"), "", &ImageFormat::Png), "pics/scan.png");
    assert_eq!(output_path(&candidate(".hidden"), "", &ImageFormat::Webp), ".hidden.webp");
    assert_eq!(output_path(&candidate("a."), "", &ImageFormat::Webp), "a.webp");
    assert_eq!(output_path(&candidate("a.b/c"), "", &ImageFormat::Webp), "a.b/c.webp");
}

#[test]
fn flat_output_drops_the_directories_of_the_input() {
    let out = output_path(&candidate("pics/holiday/a.png"), "out", &ImageFormat::Webp);
    assert_eq!(out, "out/a.webp");
    let out = output_path(&candidate("a.png"), "out/", &ImageFormat::Webp);
    assert_eq!(out, "out/a.webp");
    let out = output_path(&candidate("x/y/z.tar.gz"), "/tmp/converted", &ImageFormat::Png);
    assert_eq!(out, "/tmp/converted/z.tar.png");
    let out = output_path(&candidate("x/.hidden"), "o", &ImageFormat::Jpeg);
    assert_eq!(out, "o/.hidden.jpeg");
}

#[test]
fn extension_of_follows_the_last_dot_of_the_file_name() {
    assert_eq!(extension_of("a.png"), Some("png".to_string()));
    assert_eq!(extension_of("dir.d/a"), None);
    assert_eq!(extension_of("dir.d/a.tar.gz"), Some("gz".to_string()));
    assert_eq!(extension_of(".bashrc"), None);
    assert_eq!(extension_of(".config.toml"), Some("toml".to_string()));
    assert_eq!(extension_of("a."), Some("".to_string()));
    assert_eq!(extension_of(".."), None);
    assert_eq!(extension_of("."), None);
    assert_eq!(extension_of("x/.."), None);
    assert_eq!(extension_of(""), None);
    assert_eq!(extension_of("dir/"), None);
    assert_eq!(extension_of("x/b.png/"), Some("png".to_string()));
    assert_eq!(extension_of("x/b.png/."), Some("png".to_string()));
    assert_eq!(extension_of("x/b.png//"), Some("png".to_string()));
    assert_eq!(extension_of("..."), Some("".to_string()));
    assert_eq!(extension_of("é.ö"), Some("ö".to_string()));
}

#[test]
fn output_paths_maps_each_candidate_in_order() {
    let candidates = vec![candidate("a/x.png"), candidate("b/y.jpg"), candidate("z")];
    let outputs = output_paths(&candidates, "", &ImageFormat::Webp);
    assert_eq!(outputs, vec!["a/x.webp", "b/y.webp", "z.webp"]);
    let outputs = output_paths(&candidates, "o", &ImageFormat::Avif);
    assert_eq!(outputs, vec!["o/x.avif", "o/y.avif", "o/z.avif"]);
    assert!(output_paths(&Vec::new(), "o", &ImageFormat::Avif).is_empty());
}

#[test]
fn flat_output_collides_for_equal_stems() {
    let candidates = vec![
        candidate("a/one.png"),
        candidate("a/two.png"),
        candidate("b/one.jpg"),
        candidate("c/two.gif"),
    ];
    let flat = output_paths(&candidates, "out", &ImageFormat::Webp);
    assert_eq!(first_collision(&flat), Some((0, 2)));
    let in_place = output_paths(&candidates, "", &ImageFormat::Webp);
    assert_eq!(first_collision(&in_place), None);
}

#[test]
fn first_collision_is_the_earliest_pair() {
    let paths: Vec<String> =
        ["a", "b", "c", "b", "a", "a"].iter().map(|s| s.to_string()).collect();
    assert_eq!(first_collision(&paths), Some((1, 3)));
    let paths: Vec<String> = ["a", "b", "a", "a"].iter().map(|s| s.to_string()).collect();
    assert_eq!(first_collision(&paths), Some((0, 2)));
    let paths: Vec<String> = ["a", "b", "c"].iter().map(|s| s.to_string()).collect();
    assert_eq!(first_collision(&paths), None);
    assert_eq!(first_collision(&Vec::new()), None);
    assert_eq!(first_collision(&vec!["a".to_string()]), None);
}
