use eopkg::package::MemberFault;
use eopkg::{EopkgPackage, Error, Filetype, XmlNode};
use std::io::Write;

const METADATA: &str = "<?xml version=\"1.0\" ?>\n<PISI>\n  <Source>\n    <Name>nano</Name>\n    \
    <Packager><Name>Jo Doe</Name><Email>jo@example.org</Email></Packager>\n  </Source>\n  <Package>\n    \
    <Name>nano</Name>\n    <Summary>Small editor</Summary>\n    <Description>An editor.</Description>\n    \
    <PartOf>system.base</PartOf>\n    <License>GPL-3.0</License>\n    <RuntimeDependencies/>\n    \
    <History/>\n    <BuildHost>build01</BuildHost>\n    <Distribution>Solus</Distribution>\n    \
    <DistributionRelease>1</DistributionRelease>\n    <Architecture>x86_64</Architecture>\n    \
    <InstalledSize>12345</InstalledSize>\n    <PackageFormat>1.2</PackageFormat>\n    <Source>\n      \
    <Name>nano</Name>\n      <Packager><Name>Jo Doe</Name><Email>jo@example.org</Email></Packager>\n    \
    </Source>\n  </Package>\n</PISI>\n";

const FILES: &str = "<Files>\n  <File>\n    <Path>usr/bin/nano</Path>\n    <Type>executable</Type>\n    \
    <Uid>0</Uid>\n    <Gid>0</Gid>\n    <Mode>0755</Mode>\n    <Hash>da39a3ee5e6b4b0d3255bfef95601890afd80709</Hash>\n  \
    </File>\n</Files>\n";

fn archive_with(members: &[(&str, &[u8])], method: zip::CompressionMethod) -> Vec<u8> {
    let mut writer = zip::ZipWriter::new(std::io::Cursor::new(Vec::new()));
    for (name, content) in members {
        let options = zip::write::FileOptions::default().compression_method(method);
        writer.start_file(*name, options).unwrap();
        writer.write_all(content).unwrap();
    }
    writer.finish().unwrap().into_inner()
}

fn archive(members: &[(&str, &str)]) -> Vec<u8> {
    let members: Vec<(&str, &[u8])> = members.iter().map(|(n, c)| (*n, c.as_bytes())).collect();
    archive_with(&members, zip::CompressionMethod::Deflated)
}

#[test]
fn a_minimal_archive_round_trips() {
    let bytes = archive(&[("metadata.xml", METADATA), ("files.xml", FILES)]);
    let package = EopkgPackage::from_file(&bytes).unwrap();
    let metadata = package.metadata();
    assert_eq!(metadata.source().name(), "nano");
    assert_eq!(metadata.source().packager().name(), "Jo Doe");
    assert_eq!(metadata.source().packager().email(), "jo@example.org");
    let descriptor = metadata.package();
    assert_eq!(descriptor.name(), "nano");
    assert_eq!(descriptor.summary(), "Small editor");
    assert_eq!(descriptor.description(), "An editor.");
    assert_eq!(descriptor.part_of(), "system.base");
    assert_eq!(descriptor.licenses(), &vec!["GPL-3.0".to_owned()]);
    assert!(descriptor.runtime_dependencies().is_empty());
    assert!(descriptor.history().is_empty());
    assert_eq!(descriptor.build_host(), "build01");
    assert_eq!(descriptor.distribution(), "Solus");
    assert_eq!(descriptor.distribution_release(), "1");
    assert_eq!(descriptor.arch(), "x86_64");
    assert_eq!(descriptor.installed_size(), 12345);
    assert_eq!(descriptor.package_format(), "1.2");
    assert_eq!(descriptor.source().name(), "nano");
    let files = package.files();
    assert_eq!(files.len(), 1);
    let file = files.get(0).unwrap();
    assert_eq!(file.path(), "usr/bin/nano");
    assert_eq!(file.file_type(), Filetype::Executable);
    assert_eq!(file.uid(), 0);
    assert_eq!(file.gid(), 0);
    assert_eq!(file.mode(), 0o755);
    assert_eq!(file.hash(), "da39a3ee5e6b4b0d3255bfef95601890afd80709");
    assert!(EopkgPackage::diagnostics(&bytes).is_empty());
}

#[test]
fn the_members_may_come_in_any_order_and_among_others() {
    let bytes = archive(&[
        ("install.tar.xz", "payload"),
        ("files.xml", FILES),
        ("metadata.xml", METADATA),
    ]);
    let package = EopkgPackage::from_file(&bytes).unwrap();
    assert_eq!(package.metadata().package().name(), "nano");
    assert_eq!(package.files().len(), 1);
}

#[test]
fn a_stored_member_is_read_like_a_deflated_one() {
    let members: [(&str, &[u8]); 2] =
        [("metadata.xml", METADATA.as_bytes()), ("files.xml", FILES.as_bytes())];
    let stored = archive_with(&members, zip::CompressionMethod::Stored);
    let deflated = archive_with(&members, zip::CompressionMethod::Deflated);
    assert_ne!(stored, deflated);
    assert_eq!(EopkgPackage::from_file(&stored), EopkgPackage::from_file(&deflated));
    assert!(EopkgPackage::from_file(&stored).is_ok());
}

#[test]
fn loading_twice_gives_equal_results() {
    let bytes = archive(&[("metadata.xml", METADATA), ("files.xml", FILES)]);
    assert_eq!(EopkgPackage::from_file(&bytes), EopkgPackage::from_file(&bytes));
    let broken = archive(&[("metadata.xml", "<PISI/>"), ("files.xml", FILES)]);
    assert_eq!(EopkgPackage::from_file(&broken), EopkgPackage::from_file(&broken));
    assert_eq!(EopkgPackage::from_file(b"junk"), EopkgPackage::from_file(b"junk"));
}

#[test]
fn a_missing_member_is_reported_by_its_name() {
    let bytes = archive(&[("metadata.xml", METADATA)]);
    assert_eq!(
        EopkgPackage::from_file(&bytes),
        Err(Error::MemberNotFound("files.xml".to_owned()))
    );
    let bytes = archive(&[("files.xml", FILES)]);
    assert_eq!(
        EopkgPackage::from_file(&bytes),
        Err(Error::MemberNotFound("metadata.xml".to_owned()))
    );
    let bytes = archive(&[("other.xml", FILES)]);
    assert_eq!(
        EopkgPackage::from_file(&bytes),
        Err(Error::MemberNotFound("metadata.xml".to_owned()))
    );
    let bytes = archive(&[]);
    assert_eq!(
        EopkgPackage::from_file(&bytes),
        Err(Error::MemberNotFound("metadata.xml".to_owned()))
    );
    let bytes = archive(&[("Metadata.xml", METADATA), ("files.xml", FILES)]);
    assert_eq!(
        EopkgPackage::from_file(&bytes),
        Err(Error::MemberNotFound("metadata.xml".to_owned()))
    );
}

#[test]
fn a_missing_metadata_member_comes_before_a_malformed_file_list() {
    let bytes = archive(&[("files.xml", "<Files/>")]);
    assert_eq!(
        EopkgPackage::from_file(&bytes),
        Err(Error::MemberNotFound("metadata.xml".to_owned()))
    );
}

#[test]
fn malformed_metadata_comes_before_a_missing_file_list() {
    let bytes = archive(&[("metadata.xml", "<PISI/>")]);
    assert_eq!(EopkgPackage::from_file(&bytes), Err(Error::MissingField("Source".to_owned())));
}

#[test]
fn what_is_no_archive_is_refused() {
    assert_eq!(EopkgPackage::from_file(b""), Err(Error::Container));
    assert_eq!(EopkgPackage::from_file(b"not a zip archive at all"), Err(Error::Container));
    assert_eq!(EopkgPackage::from_file(METADATA.as_bytes()), Err(Error::Container));
    assert!(EopkgPackage::diagnostics(b"junk").is_empty());
}

#[test]
fn a_member_that_is_no_text_is_refused() {
    let members: [(&str, &[u8]); 2] =
        [("metadata.xml", &[0x3c, 0x61, 0xff, 0xfe, 0x3e]), ("files.xml", FILES.as_bytes())];
    let bytes = archive_with(&members, zip::CompressionMethod::Deflated);
    assert_eq!(EopkgPackage::from_file(&bytes), Err(Error::Decode("metadata.xml".to_owned())));
    let members: [(&str, &[u8]); 2] =
        [("metadata.xml", METADATA.as_bytes()), ("files.xml", &[0xc0, 0x80])];
    let bytes = archive_with(&members, zip::CompressionMethod::Deflated);
    assert_eq!(EopkgPackage::from_file(&bytes), Err(Error::Decode("files.xml".to_owned())));
}

#[test]
fn a_member_that_is_not_well_formed_is_refused() {
    let bytes = archive(&[("metadata.xml", "<PISI>"), ("files.xml", FILES)]);
    assert_eq!(EopkgPackage::from_file(&bytes), Err(Error::Decode("metadata.xml".to_owned())));
    let bytes = archive(&[("metadata.xml", METADATA), ("files.xml", "")]);
    assert_eq!(EopkgPackage::from_file(&bytes), Err(Error::Decode("files.xml".to_owned())));
}

#[test]
fn one_malformed_file_record_fails_the_load() {
    let files = FILES.replace(
        "</Files>",
        "<File><Path>usr/share/x</Path><Type>directory</Type><Uid>0</Uid><Gid>0</Gid>\
         <Mode>0755</Mode><Hash>h</Hash></File></Files>",
    );
    let bytes = archive(&[("metadata.xml", METADATA), ("files.xml", &files)]);
    assert_eq!(
        EopkgPackage::from_file(&bytes),
        Err(Error::UnknownFileType("directory".to_owned()))
    );
}

#[test]
fn one_malformed_dependency_does_not_fail_the_load() {
    let metadata = METADATA.replace(
        "<RuntimeDependencies/>",
        "<RuntimeDependencies><Dependency releaseFrom=\"12\">glibc</Dependency>\
         <Dependency>ncurses</Dependency></RuntimeDependencies>",
    );
    let bytes = archive(&[("metadata.xml", &metadata), ("files.xml", FILES)]);
    let package = EopkgPackage::from_file(&bytes).unwrap();
    let dependencies = package.metadata().package().runtime_dependencies();
    assert_eq!(dependencies.len(), 1);
    assert_eq!(dependencies[0].name(), "glibc");
    assert_eq!(dependencies[0].release(), 12);
    assert_eq!(
        EopkgPackage::diagnostics(&bytes),
        vec![Error::MissingAttribute("releaseFrom".to_owned())]
    );
}

#[test]
fn metadata_without_a_license_fails_the_load() {
    let metadata = METADATA.replace("<License>GPL-3.0</License>", "");
    let bytes = archive(&[("metadata.xml", &metadata), ("files.xml", FILES)]);
    assert_eq!(EopkgPackage::from_file(&bytes), Err(Error::EmptyLicenseList));
    let metadata = METADATA.replace("<License>GPL-3.0</License>", "<License/>");
    let bytes = archive(&[("metadata.xml", &metadata), ("files.xml", FILES)]);
    assert_eq!(EopkgPackage::from_file(&bytes), Err(Error::EmptyLicenseList));
}

#[test]
fn a_member_is_unpacked_and_parsed() {
    let bytes = archive(&[("files.xml", FILES)]);
    let tree = EopkgPackage::member_tree(&bytes, "files.xml").unwrap();
    assert_eq!(Some(tree), XmlNode::parse(FILES));
    assert_eq!(
        EopkgPackage::member_tree(&bytes, "metadata.xml"),
        Err(Error::MemberNotFound("metadata.xml".to_owned()))
    );
}

#[test]
fn what_became_of_a_member_decides_its_text() {
    assert_eq!(
        EopkgPackage::member_text("a.xml", Ok("<a>\u{e9}</a>".as_bytes().to_vec())),
        Ok("<a>\u{e9}</a>".to_owned())
    );
    assert_eq!(EopkgPackage::member_text("a.xml", Ok(vec![])), Ok(String::new()));
    assert_eq!(
        EopkgPackage::member_text("a.xml", Ok(vec![0x61, 0x80])),
        Err(Error::Decode("a.xml".to_owned()))
    );
    assert_eq!(
        EopkgPackage::member_text("a.xml", Ok(vec![0xed, 0xa0, 0x80])),
        Err(Error::Decode("a.xml".to_owned()))
    );
    assert_eq!(
        EopkgPackage::member_text("a.xml", Err(MemberFault::NotFound)),
        Err(Error::MemberNotFound("a.xml".to_owned()))
    );
    assert_eq!(
        EopkgPackage::member_text("a.xml", Err(MemberFault::Unreadable)),
        Err(Error::Container)
    );
}

#[test]
fn two_trees_make_a_package() {
    let metadata = XmlNode::parse(METADATA).unwrap();
    let files = XmlNode::parse(FILES).unwrap();
    let package = EopkgPackage::from_trees(&metadata, &files).unwrap();
    let bytes = archive(&[("metadata.xml", METADATA), ("files.xml", FILES)]);
    assert_eq!(Ok(package), EopkgPackage::from_file(&bytes));
    assert_eq!(
        EopkgPackage::from_trees(&files, &metadata),
        Err(Error::MissingField("Source".to_owned()))
    );
    assert_eq!(EopkgPackage::from_trees(&metadata, &metadata), Err(Error::InvalidStructure));
}

#[test]
fn a_damaged_member_is_refused() {
    let members: [(&str, &[u8]); 2] =
        [("metadata.xml", METADATA.as_bytes()), ("files.xml", FILES.as_bytes())];
    let mut bytes = archive_with(&members, zip::CompressionMethod::Stored);
    let at = bytes.windows(6).position(|w| w == b"<Name>").unwrap();
    bytes[at + 1] = b'n';
    assert_eq!(EopkgPackage::from_file(&bytes), Err(Error::Container));
}

#[test]
fn an_update_with_a_packager_child_is_kept() {
    let metadata = METADATA.replace(
        "<History/>",
        "<History><Update release=\"2\"><Date>2020-01-15</Date><Version>1.0</Version>\
         <Comment>c</Comment><Packager><Name>u</Name><Email>e</Email></Packager></Update></History>",
    );
    let bytes = archive(&[("metadata.xml", &metadata), ("files.xml", FILES)]);
    let package = EopkgPackage::from_file(&bytes).unwrap();
    let history = package.metadata().package().history();
    assert_eq!(history.len(), 1);
    assert_eq!(history[0].release(), 2);
    assert_eq!(history[0].version(), "1.0");
    assert_eq!(history[0].comment(), "c");
    assert_eq!(history[0].packager().name(), "u");
    assert_eq!(history[0].packager().email(), "e");
    assert_eq!(
        (history[0].date().year(), history[0].date().month(), history[0].date().day()),
        (2020, 1, 15)
    );
    assert!(EopkgPackage::diagnostics(&bytes).is_empty());
}

fn le16(value: u16) -> [u8; 2] {
    value.to_le_bytes()
}

fn le32(value: u32) -> [u8; 4] {
    value.to_le_bytes()
}

/// An archive of one stored member `metadata.xml` holding `x`, written byte
/// by byte: `junk` stands in front of it, `offset` is the member's recorded
/// place and `extra` the extra field of its directory entry.
fn crafted(junk: &[u8], offset: u32, extra: &[u8]) -> Vec<u8> {
    let name = b"metadata.xml";
    let crc: u32 = 0x8cdc1683;
    let mut bytes = junk.to_vec();
    bytes.extend_from_slice(&[0x50, 0x4b, 0x03, 0x04]);
    bytes.extend_from_slice(&le16(20));
    bytes.extend_from_slice(&[0; 8]);
    bytes.extend_from_slice(&le32(crc));
    bytes.extend_from_slice(&le32(1));
    bytes.extend_from_slice(&le32(1));
    bytes.extend_from_slice(&le16(name.len() as u16));
    bytes.extend_from_slice(&le16(0));
    bytes.extend_from_slice(name);
    bytes.push(b'x');
    let directory_at = (bytes.len() - junk.len()) as u32;
    let before = bytes.len();
    bytes.extend_from_slice(&[0x50, 0x4b, 0x01, 0x02]);
    bytes.extend_from_slice(&le16(20));
    bytes.extend_from_slice(&le16(20));
    bytes.extend_from_slice(&[0; 8]);
    bytes.extend_from_slice(&le32(crc));
    bytes.extend_from_slice(&le32(1));
    bytes.extend_from_slice(&le32(1));
    bytes.extend_from_slice(&le16(name.len() as u16));
    bytes.extend_from_slice(&le16(extra.len() as u16));
    bytes.extend_from_slice(&[0; 6]);
    bytes.extend_from_slice(&le32(0));
    bytes.extend_from_slice(&le32(offset));
    bytes.extend_from_slice(name);
    bytes.extend_from_slice(extra);
    let directory_size = (bytes.len() - before) as u32;
    bytes.extend_from_slice(&[0x50, 0x4b, 0x05, 0x06]);
    bytes.extend_from_slice(&[0; 4]);
    bytes.extend_from_slice(&le16(1));
    bytes.extend_from_slice(&le16(1));
    bytes.extend_from_slice(&le32(directory_size));
    bytes.extend_from_slice(&le32(directory_at));
    bytes.extend_from_slice(&le16(0));
    bytes
}

#[test]
fn an_archive_written_by_hand_is_read() {
    let bytes = crafted(&[], 0, &[]);
    assert_eq!(
        EopkgPackage::member_text("metadata.xml", Ok(b"x".to_vec())),
        Ok("x".to_owned())
    );
    assert_eq!(
        EopkgPackage::member_tree(&bytes, "metadata.xml"),
        Err(Error::Decode("metadata.xml".to_owned()))
    );
    assert_eq!(
        EopkgPackage::member_tree(&bytes, "files.xml"),
        Err(Error::MemberNotFound("files.xml".to_owned()))
    );
    let shifted = crafted(b"junk in front", 0, &[]);
    assert_eq!(
        EopkgPackage::member_tree(&shifted, "metadata.xml"),
        Err(Error::Decode("metadata.xml".to_owned()))
    );
}

#[test]
fn a_recorded_place_beyond_all_bounds_is_refused() {
    let mut extra = vec![0x01, 0x00, 0x08, 0x00];
    extra.extend_from_slice(&u64::MAX.to_le_bytes());
    let bytes = crafted(b"!", 0xffff_ffff, &extra);
    assert_eq!(EopkgPackage::from_file(&bytes), Err(Error::Container));
    assert_eq!(EopkgPackage::member_tree(&bytes, "metadata.xml"), Err(Error::Container));
    assert!(EopkgPackage::diagnostics(&bytes).is_empty());
    let mut extra = vec![0x01, 0x00, 0x08, 0x00];
    extra.extend_from_slice(&(u64::MAX - 5).to_le_bytes());
    let bytes = crafted(b"0123456789", 0xffff_ffff, &extra);
    assert_eq!(EopkgPackage::from_file(&bytes), Err(Error::Container));
}

#[test]
fn an_encryption_field_on_a_plain_member_is_refused() {
    let extra = [0x01, 0x99, 0x07, 0x00, 0x02, 0x00, 0x41, 0x45, 0x03, 0x00, 0x00];
    let bytes = crafted(&[], 0, &extra);
    assert_eq!(EopkgPackage::from_file(&bytes), Err(Error::Container));
    assert_eq!(EopkgPackage::member_tree(&bytes, "metadata.xml"), Err(Error::Container));
    assert_eq!(
        EopkgPackage::member_tree(&bytes, "files.xml"),
        Err(Error::MemberNotFound("files.xml".to_owned()))
    );
    assert!(EopkgPackage::diagnostics(&bytes).is_empty());
}

#[test]
fn an_encrypted_member_is_refused() {
    let mut bytes = crafted(&[], 0, &[]);
    let local_flags = 6;
    bytes[local_flags] |= 1;
    let directory = bytes.windows(4).position(|w| w == [0x50, 0x4b, 0x01, 0x02]).unwrap();
    bytes[directory + 8] |= 1;
    assert_eq!(EopkgPackage::member_tree(&bytes, "metadata.xml"), Err(Error::Container));
}
