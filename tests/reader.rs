use std::sync::Arc;

use oxidized_importer::index::ResourceIndex;
use oxidized_importer::reader::{OpenedResource, OxidizedResourceReader, ResourceError};

fn reader_over(entries: &[(&str, &str, &[u8])], package: &str) -> OxidizedResourceReader {
    let mut index = ResourceIndex::new();
    for (p, n, d) in entries {
        index.add_resource(p.to_string(), n.to_string(), d.to_vec());
    }
    OxidizedResourceReader::new(Arc::new(index), package.to_string())
}

#[test]
fn directory_and_file_are_told_apart() {
    let reader = reader_over(&[("pkg", "a/b.dat", b"data")], "pkg");
    let root = reader.files();
    let a = root.truediv("a");
    assert!(a.is_dir());
    assert!(!a.is_file());
    let b = root.truediv("a/b.dat");
    assert!(b.is_file());
    assert!(!b.is_dir());
    assert!(a.truediv("b.dat").is_file());
}

#[test]
fn name_that_is_both_resource_and_directory_is_no_file() {
    let reader = reader_over(&[("pkg", "a", b"x"), ("pkg", "a/b", b"y")], "pkg");
    let a = reader.files().truediv("a");
    assert!(a.is_dir());
    assert!(!a.is_file());
    assert_eq!(a.read_bytes(), Ok(b"x".to_vec()));
}

#[test]
fn contents_lists_resources_and_subdirectories() {
    let reader = reader_over(
        &[("pkg", "x.dat", b"1"), ("pkg", "sub/y.dat", b"2"), ("pkg", "sub/z.dat", b"3")],
        "pkg",
    );
    assert_eq!(reader.contents(), vec!["sub".to_string(), "x.dat".to_string()]);
    assert_eq!(reader.contents(), reader.contents());
}

#[test]
fn contents_is_sorted_and_scoped_to_the_package() {
    let reader = reader_over(
        &[("pkg", "b", b"1"), ("other", "z", b"2"), ("pkg", "a-b/c", b"3"), ("pkg", "a/c", b"4")],
        "pkg",
    );
    assert_eq!(
        reader.contents(),
        vec!["a".to_string(), "a-b".to_string(), "b".to_string()]
    );
}

#[test]
fn joinpath_equals_division() {
    let reader = reader_over(&[("pkg", "a/b", b"1")], "pkg");
    let root = reader.files();
    let joined = root.joinpath(&vec!["a".to_string(), "b".to_string()]);
    let divided = root.truediv("a").truediv("b");
    assert!(joined.same_as(&divided));
    assert_eq!(joined.path, "a/b");
    let base = root.truediv("a");
    let deeper = base.joinpath(&vec!["b".to_string(), "c".to_string()]);
    assert!(deeper.same_as(&base.truediv("b").truediv("c")));
    assert_eq!(deeper.path, "a/b/c");
}

#[test]
fn paths_of_other_packages_differ() {
    let index = Arc::new(ResourceIndex::new());
    let one = OxidizedResourceReader::new(index.clone(), "one".to_string()).files();
    let two = OxidizedResourceReader::new(index, "two".to_string()).files();
    assert!(!one.same_as(&two));
    assert!(!one.truediv("a").same_as(&two.truediv("a")));
    assert!(!one.truediv("a").same_as(&one.truediv("b")));
}

#[test]
fn missing_resource_is_not_found() {
    let reader = reader_over(&[("pkg", "x.dat", b"1")], "pkg");
    assert_eq!(reader.open_resource("missing"), Err(ResourceError::NotFound));
    assert_eq!(reader.open_resource("x.dat"), Ok(&b"1".to_vec()));
    assert_eq!(reader.resource_path("x.dat"), Err(ResourceError::NotFound));
    assert_eq!(reader.resource_path("missing"), Err(ResourceError::NotFound));
}

#[test]
fn is_resource_distinguishes_three_cases() {
    let reader = reader_over(&[("pkg", "x.dat", b"1"), ("pkg", "sub/y.dat", b"2")], "pkg");
    assert_eq!(reader.is_resource("x.dat"), Ok(true));
    assert_eq!(reader.is_resource("sub"), Ok(false));
    assert_eq!(reader.is_resource("nope"), Err(ResourceError::NotFound));
}

#[test]
fn later_add_overrides_earlier() {
    let reader = reader_over(&[("pkg", "x", b"old"), ("pkg", "x", b"new")], "pkg");
    assert_eq!(reader.open_resource("x"), Ok(&b"new".to_vec()));
    assert_eq!(reader.contents(), vec!["x".to_string()]);
}

#[test]
fn iterdir_lists_children_as_paths() {
    let reader = reader_over(
        &[("pkg", "d/b", b"1"), ("pkg", "d/a/x", b"2"), ("pkg", "top", b"3")],
        "pkg",
    );
    let root = reader.files();
    let top: Vec<String> = root.iterdir().into_iter().map(|p| p.path).collect();
    assert_eq!(top, vec!["d".to_string(), "top".to_string()]);
    let below: Vec<String> = root.truediv("d").iterdir().into_iter().map(|p| p.path).collect();
    assert_eq!(below, vec!["d/a".to_string(), "d/b".to_string()]);
}

#[test]
fn root_is_a_directory_and_not_a_resource() {
    let reader = reader_over(&[("pkg", "x", b"1")], "pkg");
    let root = reader.files();
    assert!(root.is_dir());
    assert!(!root.is_file());
    assert_eq!(root.name(), "pkg");
    assert_eq!(root.open("rb"), Err(ResourceError::NotFound));
    assert_eq!(root.read_bytes(), Err(ResourceError::NotFound));
    assert_eq!(root.read_text(), Err(ResourceError::NotFound));
}

#[test]
fn path_name_is_last_segment() {
    let reader = reader_over(&[], "pkg");
    let root = reader.files();
    assert_eq!(root.truediv("a/b.dat").name(), "b.dat");
    assert_eq!(root.truediv("top").name(), "top");
    assert_eq!(root.truediv("a").truediv("b").name(), "b");
}

#[test]
fn open_modes_and_reads() {
    let reader = reader_over(&[("pkg", "t.txt", "héllo".as_bytes()), ("pkg", "bin", &[0xff, 0xfe])], "pkg");
    let root = reader.files();
    let t = root.truediv("t.txt");
    assert_eq!(t.open("r"), Ok(OpenedResource::Text("héllo".to_string())));
    assert_eq!(t.open("rt"), Ok(OpenedResource::Text("héllo".to_string())));
    assert_eq!(t.open("tr"), Ok(OpenedResource::Text("héllo".to_string())));
    assert_eq!(t.open("br"), Ok(OpenedResource::Bytes("héllo".as_bytes().to_vec())));
    assert_eq!(t.open("rb"), Ok(OpenedResource::Bytes("héllo".as_bytes().to_vec())));
    assert_eq!(t.read_text(), Ok("héllo".to_string()));
    assert_eq!(t.read_bytes(), Ok("héllo".as_bytes().to_vec()));
    let b = root.truediv("bin");
    assert_eq!(b.read_text(), Err(ResourceError::InvalidText));
    assert_eq!(b.open("r"), Err(ResourceError::InvalidText));
    assert_eq!(b.read_bytes(), Ok(vec![0xff, 0xfe]));
    let missing = root.truediv("missing");
    assert_eq!(missing.open("rb"), Err(ResourceError::NotFound));
    assert_eq!(missing.open("w"), Err(ResourceError::NotFound));
    assert_eq!(missing.read_text(), Err(ResourceError::NotFound));
}

#[test]
fn empty_name_is_not_a_directory() {
    let reader = reader_over(&[("pkg", "x", b"1")], "pkg");
    assert_eq!(reader.is_resource(""), Err(ResourceError::NotFound));
    let empty = reader.files().truediv("");
    assert!(!empty.is_dir());
    assert!(empty.iterdir().is_empty());
}

#[test]
fn trailing_separator_makes_a_directory() {
    let reader = reader_over(&[("pkg", "a", b"1"), ("pkg", "a/", b"2")], "pkg");
    let a = reader.files().truediv("a");
    assert!(a.is_dir());
    assert!(!a.is_file());
    let below: Vec<String> = a.iterdir().into_iter().map(|p| p.path).collect();
    assert_eq!(below, vec!["a/".to_string()]);
    let only_dir = reader_over(&[("pkg", "d/", b"2")], "pkg");
    assert_eq!(only_dir.is_resource("d"), Ok(false));
}

#[test]
fn every_first_segment_is_listed() {
    let reader = reader_over(&[("pkg", "", b"1"), ("pkg", "/x", b"2"), ("pkg", "y", b"3")], "pkg");
    assert_eq!(reader.contents(), vec!["".to_string(), "y".to_string()]);
    let top: Vec<String> = reader.files().iterdir().into_iter().map(|p| p.path).collect();
    assert_eq!(top, vec!["".to_string(), "y".to_string()]);
    let below_empty: Vec<String> =
        reader.files().truediv("").iterdir().into_iter().map(|p| p.path).collect();
    assert_eq!(below_empty, vec!["/x".to_string()]);
}

#[test]
fn empty_segments_are_dropped_for_lookup_and_equality() {
    let reader = reader_over(&[("pkg", "a/b", b"1")], "pkg");
    let root = reader.files();
    let divided = root.truediv("a/").truediv("b");
    assert_eq!(divided.path, "a//b");
    assert!(divided.same_as(&root.joinpath(&vec!["a".to_string(), "b".to_string()])));
    assert!(divided.is_file());
    assert_eq!(divided.read_bytes(), Ok(b"1".to_vec()));
    assert_eq!(divided.name(), "b");
    assert!(root.truediv("/a/").is_dir());
    let below: Vec<String> = root.truediv("a/").iterdir().into_iter().map(|p| p.path).collect();
    assert_eq!(below, vec!["a/b".to_string()]);
    assert!(!divided.same_as(&root.truediv("a")));
}
