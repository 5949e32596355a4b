use eopkg::{Error, File, Files, Filetype, XmlNode};

fn record(path: &str, kind: &str, uid: &str, gid: &str, mode: &str, hash: &str) -> String {
    format!(
        "<File><Path>{}</Path><Type>{}</Type><Uid>{}</Uid><Gid>{}</Gid><Mode>{}</Mode><Hash>{}</Hash></File>",
        path, kind, uid, gid, mode, hash
    )
}

fn tree(text: &str) -> XmlNode {
    XmlNode::parse(text).unwrap()
}

#[test]
fn a_file_record_is_read_field_by_field() {
    let node = tree(&record("usr/bin/nano", "executable", "0", "100", "0755", "da39a3ee"));
    let file = File::try_from(&node).unwrap();
    assert_eq!(file.path(), "usr/bin/nano");
    assert_eq!(file.file_type(), Filetype::Executable);
    assert_eq!(file.uid(), 0);
    assert_eq!(file.gid(), 100);
    assert_eq!(file.mode(), 0o755);
    assert_eq!(file.mode(), 493);
    assert_eq!(file.hash(), "da39a3ee");
}

#[test]
fn each_token_names_its_file_type() {
    let pairs = [
        ("executable", Filetype::Executable),
        ("library", Filetype::Library),
        ("data", Filetype::Data),
        ("man", Filetype::Man),
        ("doc", Filetype::Doc),
    ];
    for (token, file_type) in pairs {
        let node = tree(&format!("<Type>{}</Type>", token));
        assert_eq!(Filetype::try_from(&node), Ok(file_type));
        assert_eq!(file_type.token(), token);
    }
}

#[test]
fn a_token_is_matched_exactly() {
    for raw in ["Executable", "DOC", " doc", "doc ", "docs", "config", "exe"] {
        let node = tree(&format!("<Type>{}</Type>", raw));
        assert_eq!(Filetype::try_from(&node), Err(Error::UnknownFileType(raw.to_owned())));
    }
    let empty = tree("<Type/>");
    assert_eq!(Filetype::try_from(&empty), Err(Error::MissingField("Type".to_owned())));
}

#[test]
fn each_missing_field_of_a_record_is_reported() {
    let full = ["Path", "Type", "Uid", "Gid", "Mode", "Hash"];
    let values = ["p", "data", "1", "2", "0644", "h"];
    for missing in 0..full.len() {
        let mut text = String::from("<File>");
        for i in 0..full.len() {
            if i != missing {
                text.push_str(&format!("<{0}>{1}</{0}>", full[i], values[i]));
            }
        }
        text.push_str("</File>");
        assert_eq!(
            File::try_from(&tree(&text)),
            Err(Error::MissingField(full[missing].to_owned())),
            "{}",
            text
        );
    }
}

#[test]
fn the_first_bad_field_of_a_record_decides() {
    let node = tree(&record("p", "nothing", "x", "y", "9", "h"));
    assert_eq!(File::try_from(&node), Err(Error::UnknownFileType("nothing".to_owned())));
    let node = tree(&record("p", "data", "x", "y", "9", "h"));
    assert_eq!(
        File::try_from(&node),
        Err(Error::InvalidValue("Uid".to_owned(), "x".to_owned()))
    );
    let node = tree(&record("p", "data", "1", "-2", "9", "h"));
    assert_eq!(
        File::try_from(&node),
        Err(Error::InvalidValue("Gid".to_owned(), "-2".to_owned()))
    );
    let node = tree(&record("p", "data", "1", "2", "0788", "h"));
    assert_eq!(
        File::try_from(&node),
        Err(Error::InvalidValue("Mode".to_owned(), "0788".to_owned()))
    );
    let node = tree("<File><Type>data</Type><Uid>x</Uid></File>");
    assert_eq!(File::try_from(&node), Err(Error::MissingField("Path".to_owned())));
}

#[test]
fn a_file_list_keeps_its_order() {
    let text = format!(
        "<Files>\n  {}\n  <!-- note -->\n  {}\n  {}\n</Files>",
        record("a", "data", "0", "0", "0644", "h1"),
        record("b", "man", "1", "2", "0444", "h2"),
        record("c", "library", "3", "4", "0755", "h3"),
    );
    let files = Files::try_from(&tree(&text)).unwrap();
    assert_eq!(files.len(), 3);
    let paths: Vec<&str> = (0..3).map(|i| files.get(i).unwrap().path()).collect();
    assert_eq!(paths, vec!["a", "b", "c"]);
    assert_eq!(files.get(1).unwrap().file_type(), Filetype::Man);
    assert_eq!(files.get(1).unwrap().mode(), 0o444);
    assert_eq!(files.get(2).unwrap().gid(), 4);
    assert!(files.get(3).is_none());
    assert_eq!(files.files().len(), 3);
    assert_eq!(files.files()[0].hash(), "h1");
}

#[test]
fn an_empty_file_list_is_refused() {
    assert_eq!(Files::try_from(&tree("<Files/>")), Err(Error::InvalidStructure));
    assert_eq!(Files::try_from(&tree("<Files>  </Files>")), Err(Error::InvalidStructure));
    assert_eq!(Files::try_from(&tree("<Files><!-- none --></Files>")), Err(Error::InvalidStructure));
}

#[test]
fn a_child_that_is_no_file_record_is_refused() {
    assert_eq!(Files::try_from(&tree("<Files><Other/></Files>")), Err(Error::InvalidStructure));
    let text = format!("<Files>{}<Other/></Files>", record("a", "data", "0", "0", "0644", "h"));
    assert_eq!(Files::try_from(&tree(&text)), Err(Error::InvalidStructure));
    let text = format!("<Files><file/>{}</Files>", record("a", "data", "0", "0", "0644", "h"));
    assert_eq!(Files::try_from(&tree(&text)), Err(Error::InvalidStructure));
}

#[test]
fn a_root_of_another_tag_is_refused() {
    let text = format!("<files>{}</files>", record("a", "data", "0", "0", "0644", "h"));
    assert_eq!(Files::try_from(&tree(&text)), Err(Error::InvalidStructure));
    let text = format!("<PISI>{}</PISI>", record("a", "data", "0", "0", "0644", "h"));
    assert_eq!(Files::try_from(&tree(&text)), Err(Error::InvalidStructure));
}

#[test]
fn the_structure_is_checked_before_any_record() {
    let text = format!("<Files>{}<Other/></Files>", record("a", "bad", "0", "0", "0644", "h"));
    assert_eq!(Files::try_from(&tree(&text)), Err(Error::InvalidStructure));
}

#[test]
fn one_malformed_record_fails_the_whole_list() {
    let text = format!(
        "<Files>{}{}</Files>",
        record("a", "data", "0", "0", "0644", "h"),
        record("b", "socket", "0", "0", "0644", "h"),
    );
    assert_eq!(Files::try_from(&tree(&text)), Err(Error::UnknownFileType("socket".to_owned())));
    let text = format!(
        "<Files>{}{}</Files>",
        record("b", "data", "0", "zero", "0644", "h"),
        record("a", "data", "0", "0", "0644", "h"),
    );
    assert_eq!(
        Files::try_from(&tree(&text)),
        Err(Error::InvalidValue("Gid".to_owned(), "zero".to_owned()))
    );
}

#[test]
fn the_first_malformed_record_decides() {
    let text = format!(
        "<Files>{}{}{}</Files>",
        record("a", "data", "0", "0", "0644", "h"),
        record("b", "data", "0", "0", "rwx", "h"),
        record("c", "socket", "0", "0", "0644", "h"),
    );
    assert_eq!(
        Files::try_from(&tree(&text)),
        Err(Error::InvalidValue("Mode".to_owned(), "rwx".to_owned()))
    );
}
