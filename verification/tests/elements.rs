use datfile::error::{
    no_document_text, truncated_text, unexpected_attribute, unexpected_child, unexpected_root,
};
use datfile::text::str_eq;
use datfile::{
    cursor, Archive, BiosSet, ClrMamePro, DatReaderError, DataFile, Disk, Element, ForceMerging,
    ForceNoDump, ForcePacking, Game, Header, Release, Rom, RomCenter, RomMode, Sample,
    SampleMode, Status, XmlAttr, XmlCursor,
};

#[test]
fn str_eq_compares_text() {
    assert!(str_eq("", ""));
    assert!(str_eq("datafile", "datafile"));
    assert!(!str_eq("datafile", "datafil"));
    assert!(!str_eq("datafile", "datafilf"));
    assert!(!str_eq("yes", "Yes"));
    assert!(str_eq("h\u{e9}", "h\u{e9}"));
    assert!(!str_eq("h\u{e9}", "h\u{e8}"));
}

#[test]
fn text_takes_any_value() {
    let mut field = "old".to_owned();
    assert!(field.set_from_str("new value"));
    assert_eq!(field, "new value");
    assert!(field.set_from_str(""));
    assert_eq!(field, "");
}

#[test]
fn flag_takes_yes_and_no_only() {
    let mut flag = false;
    assert!(flag.set_from_str("yes"));
    assert!(flag);
    assert!(flag.set_from_str("no"));
    assert!(!flag);
    flag = true;
    for refused in ["maybe", "YES", "true", "1", "", " yes"] {
        assert!(!flag.set_from_str(refused));
        assert!(flag);
    }
}

#[test]
fn force_merging_takes_its_tokens_only() {
    let mut field = ForceMerging::Split;
    assert!(field.set_from_str("none"));
    assert_eq!(field, ForceMerging::NoMerging);
    assert!(field.set_from_str("full"));
    assert_eq!(field, ForceMerging::Full);
    assert!(field.set_from_str("split"));
    assert_eq!(field, ForceMerging::Split);
    assert!(!field.set_from_str("merged"));
    assert_eq!(field, ForceMerging::Split);
}

#[test]
fn force_no_dump_takes_its_tokens_only() {
    let mut field = ForceNoDump::Obsolete;
    assert!(field.set_from_str("required"));
    assert_eq!(field, ForceNoDump::Required);
    assert!(field.set_from_str("ignore"));
    assert_eq!(field, ForceNoDump::Ignore);
    assert!(field.set_from_str("obsolete"));
    assert_eq!(field, ForceNoDump::Obsolete);
    assert!(!field.set_from_str("none"));
    assert_eq!(field, ForceNoDump::Obsolete);
}

#[test]
fn force_packing_takes_its_tokens_only() {
    let mut field = ForcePacking::Zip;
    assert!(field.set_from_str("unzip"));
    assert_eq!(field, ForcePacking::Unzip);
    assert!(field.set_from_str("zip"));
    assert_eq!(field, ForcePacking::Zip);
    assert!(!field.set_from_str("tar"));
    assert_eq!(field, ForcePacking::Zip);
}

#[test]
fn rom_mode_takes_its_tokens_only() {
    let mut field = RomMode::Split;
    assert!(field.set_from_str("merged"));
    assert_eq!(field, RomMode::Merged);
    assert!(field.set_from_str("unmerged"));
    assert_eq!(field, RomMode::Unmerged);
    assert!(field.set_from_str("split"));
    assert_eq!(field, RomMode::Split);
    assert!(!field.set_from_str("full"));
    assert_eq!(field, RomMode::Split);
}

#[test]
fn sample_mode_takes_its_tokens_only() {
    let mut field = SampleMode::Merged;
    assert!(field.set_from_str("unmerged"));
    assert_eq!(field, SampleMode::Unmerged);
    assert!(field.set_from_str("merged"));
    assert_eq!(field, SampleMode::Merged);
    assert!(!field.set_from_str("split"));
    assert_eq!(field, SampleMode::Merged);
}

#[test]
fn status_takes_its_tokens_only() {
    let mut field = Status::Good;
    assert!(field.set_from_str("baddump"));
    assert_eq!(field, Status::BadDump);
    assert!(field.set_from_str("nodump"));
    assert_eq!(field, Status::NoDump);
    assert!(field.set_from_str("verified"));
    assert_eq!(field, Status::Verified);
    assert!(field.set_from_str("good"));
    assert_eq!(field, Status::Good);
    assert!(!field.set_from_str("bad"));
    assert_eq!(field, Status::Good);
}

#[test]
fn status_is_ordered_from_bad_to_verified() {
    assert!(Status::BadDump < Status::NoDump);
    assert!(Status::NoDump < Status::Good);
    assert!(Status::Good < Status::Verified);
}

#[test]
fn cursor_binds_an_element_to_its_tag() {
    let bound = cursor("rom", Element::Rom(Rom::default()));
    assert_eq!(bound, Some(XmlCursor { tag: "rom", element: Element::Rom(Rom::default()) }));
    let bound = cursor("year", Element::Text("1990".to_owned())).unwrap();
    assert_eq!(bound.tag, "year");
    assert_eq!(bound.element, Element::Text("1990".to_owned()));
}

#[test]
fn datafile_resolves_its_attributes() {
    let mut doc = DataFile::default();
    assert!(doc.attr("build", "b"));
    assert!(doc.attr("debug", "yes"));
    assert!(!doc.attr("debug", "on"));
    assert!(!doc.attr("name", "n"));
    assert_eq!(doc.build, "b");
    assert!(doc.debug);
}

#[test]
fn datafile_resolves_its_children() {
    let mut doc = DataFile::default();
    assert_eq!(doc.child("game"), cursor("game", Element::Game(Game::default())));
    assert_eq!(doc.child("header"), cursor("header", Element::Header(Header::default())));
    assert_eq!(doc.child("rom"), None);
    assert_eq!(doc.child("Game"), None);
    let mut header = Header::default();
    header.name = "kept".to_owned();
    doc.adopt(XmlCursor { tag: "header", element: Element::Header(header) });
    match doc.child("header") {
        Some(XmlCursor { tag: "header", element: Element::Header(h) }) => {
            assert_eq!(h.name, "kept")
        }
        other => panic!("unexpected child {:?}", other),
    }
    let mut game = Game::default();
    game.name = "g1".to_owned();
    doc.adopt(XmlCursor { tag: "game", element: Element::Game(game) });
    doc.adopt(XmlCursor { tag: "game", element: Element::Game(Game::default()) });
    assert_eq!(doc.games.len(), 2);
    assert_eq!(doc.games[0].name, "g1");
    doc.adopt(XmlCursor { tag: "rom", element: Element::Rom(Rom::default()) });
    assert_eq!(doc.games.len(), 2);
}

#[test]
fn header_resolves_its_children() {
    let mut header = Header::default();
    for tag in [
        "name",
        "description",
        "category",
        "version",
        "date",
        "author",
        "email",
        "homepage",
        "url",
        "comment",
    ] {
        let child = header.child(tag).unwrap();
        assert_eq!(child.tag, tag);
        assert_eq!(child.element, Element::Text(String::new()));
        header.adopt(XmlCursor { tag: child.tag, element: Element::Text(tag.to_uppercase()) });
    }
    assert_eq!(header.name, "NAME");
    assert_eq!(header.description, "DESCRIPTION");
    assert_eq!(header.category, "CATEGORY");
    assert_eq!(header.version, "VERSION");
    assert_eq!(header.date, "DATE");
    assert_eq!(header.author, "AUTHOR");
    assert_eq!(header.email, "EMAIL");
    assert_eq!(header.homepage, "HOMEPAGE");
    assert_eq!(header.url, "URL");
    assert_eq!(header.comment, "COMMENT");
    assert_eq!(header.child("url").unwrap().element, Element::Text("URL".to_owned()));
    assert_eq!(
        header.child("clrmamepro"),
        cursor("clrmamepro", Element::ClrMamePro(ClrMamePro::default()))
    );
    assert_eq!(
        header.child("romcenter"),
        cursor("romcenter", Element::RomCenter(RomCenter::default()))
    );
    assert_eq!(header.child("game"), None);
    let mut profile = RomCenter::default();
    profile.plugin = "p".to_owned();
    header.adopt(XmlCursor { tag: "romcenter", element: Element::RomCenter(profile) });
    assert_eq!(header.rom_center.as_ref().unwrap().plugin, "p");
    assert_eq!(header.clr_mame_pro, None);
    match header.child("romcenter").unwrap().element {
        Element::RomCenter(p) => assert_eq!(p.plugin, "p"),
        other => panic!("unexpected child {:?}", other),
    }
    header.adopt(XmlCursor { tag: "unknown", element: Element::Text("lost".to_owned()) });
    assert_eq!(header.name, "NAME");
}

#[test]
fn clrmamepro_resolves_its_attributes() {
    let mut profile = ClrMamePro::default();
    assert!(profile.attr("header", "h"));
    assert!(profile.attr("forcemerging", "full"));
    assert!(profile.attr("forcenodump", "ignore"));
    assert!(profile.attr("forcepacking", "unzip"));
    assert!(!profile.attr("forcepacking", "none"));
    assert!(!profile.attr("plugin", "p"));
    assert_eq!(
        profile,
        ClrMamePro {
            header: "h".to_owned(),
            force_merging: ForceMerging::Full,
            force_no_dump: ForceNoDump::Ignore,
            force_packing: ForcePacking::Unzip,
        }
    );
}

#[test]
fn romcenter_resolves_its_attributes() {
    let mut profile = RomCenter::default();
    assert!(profile.attr("plugin", "p"));
    assert!(profile.attr("rommode", "merged"));
    assert!(profile.attr("biosmode", "unmerged"));
    assert!(profile.attr("samplemode", "unmerged"));
    assert!(profile.attr("lockrommode", "yes"));
    assert!(profile.attr("lockbiosmode", "yes"));
    assert!(profile.attr("locksamplemode", "yes"));
    assert!(!profile.attr("samplemode", "split"));
    assert!(!profile.attr("header", "h"));
    assert_eq!(
        profile,
        RomCenter {
            plugin: "p".to_owned(),
            rom_mode: RomMode::Merged,
            bios_mode: RomMode::Unmerged,
            sample_mode: SampleMode::Unmerged,
            lock_rom_mode: true,
            lock_bios_mode: true,
            lock_sample_mode: true,
        }
    );
}

#[test]
fn game_resolves_its_attributes() {
    let mut game = Game::default();
    for (key, value) in [
        ("id", "1"),
        ("name", "n"),
        ("sourcefile", "s"),
        ("isbios", "yes"),
        ("cloneof", "c"),
        ("cloneofid", "2"),
        ("romof", "r"),
        ("sampleof", "o"),
        ("board", "b"),
        ("rebuildto", "t"),
    ] {
        assert!(game.attr(key, value));
    }
    assert!(!game.attr("isbios", "maybe"));
    assert!(!game.attr("description", "d"));
    assert!(!game.attr("year", "1990"));
    assert_eq!(game.id, "1");
    assert_eq!(game.name, "n");
    assert_eq!(game.source_file, "s");
    assert!(game.is_bios);
    assert_eq!(game.clone_of, "c");
    assert_eq!(game.clone_of_id, "2");
    assert_eq!(game.rom_of, "r");
    assert_eq!(game.sample_of, "o");
    assert_eq!(game.board, "b");
    assert_eq!(game.rebuild_to, "t");
    assert_eq!(game.description, "");
}

#[test]
fn game_resolves_its_children() {
    let mut game = Game::default();
    game.name = "n".to_owned();
    assert_eq!(game.child("name"), cursor("name", Element::Text("n".to_owned())));
    assert_eq!(game.child("comment"), cursor("comment", Element::Text(String::new())));
    assert_eq!(game.child("release"), cursor("release", Element::Release(Release::default())));
    assert_eq!(game.child("biosset"), cursor("biosset", Element::BiosSet(BiosSet::default())));
    assert_eq!(game.child("rom"), cursor("rom", Element::Rom(Rom::default())));
    assert_eq!(game.child("disk"), cursor("disk", Element::Disk(Disk::default())));
    assert_eq!(game.child("sample"), cursor("sample", Element::Sample(Sample::default())));
    assert_eq!(game.child("archive"), cursor("archive", Element::Archive(Archive::default())));
    assert_eq!(game.child("header"), None);
    assert_eq!(game.child("game"), None);
    game.adopt(XmlCursor { tag: "comment", element: Element::Text("c1".to_owned()) });
    game.adopt(XmlCursor { tag: "comment", element: Element::Text("c2".to_owned()) });
    game.adopt(XmlCursor { tag: "year", element: Element::Text("1990".to_owned()) });
    game.adopt(XmlCursor { tag: "manufacturer", element: Element::Text("m".to_owned()) });
    game.adopt(XmlCursor { tag: "description", element: Element::Text("d".to_owned()) });
    game.adopt(XmlCursor { tag: "name", element: Element::Text("n2".to_owned()) });
    game.adopt(XmlCursor { tag: "rom", element: Element::Rom(Rom::default()) });
    game.adopt(XmlCursor { tag: "disk", element: Element::Disk(Disk::default()) });
    game.adopt(XmlCursor { tag: "sample", element: Element::Sample(Sample::default()) });
    game.adopt(XmlCursor { tag: "archive", element: Element::Archive(Archive::default()) });
    game.adopt(XmlCursor { tag: "release", element: Element::Release(Release::default()) });
    game.adopt(XmlCursor { tag: "biosset", element: Element::BiosSet(BiosSet::default()) });
    assert_eq!(game.comments, vec!["c1".to_owned(), "c2".to_owned()]);
    assert_eq!(game.year, "1990");
    assert_eq!(game.manufacturer, "m");
    assert_eq!(game.description, "d");
    assert_eq!(game.name, "n2");
    assert_eq!(
        (
            game.roms.len(),
            game.disks.len(),
            game.samples.len(),
            game.archives.len(),
            game.releases.len(),
            game.bios_sets.len()
        ),
        (1, 1, 1, 1, 1, 1)
    );
}

#[test]
fn leaves_resolve_their_attributes() {
    let mut release = Release::default();
    assert!(release.attr("name", "n"));
    assert!(release.attr("region", "r"));
    assert!(release.attr("language", "l"));
    assert!(release.attr("date", "d"));
    assert!(release.attr("default", "yes"));
    assert!(!release.attr("default", "y"));
    assert!(!release.attr("status", "good"));
    assert_eq!(
        release,
        Release {
            name: "n".to_owned(),
            region: "r".to_owned(),
            language: "l".to_owned(),
            date: "d".to_owned(),
            default: true,
        }
    );
    let mut bios = BiosSet::default();
    assert!(bios.attr("name", "n"));
    assert!(bios.attr("description", "d"));
    assert!(bios.attr("default", "yes"));
    assert!(!bios.attr("region", "r"));
    assert_eq!(
        bios,
        BiosSet { name: "n".to_owned(), description: "d".to_owned(), default: true }
    );
    let mut rom = Rom::default();
    for key in ["name", "size", "crc", "sha1", "sha256", "md5", "merge", "date", "serial"] {
        assert!(rom.attr(key, key));
    }
    assert!(rom.attr("status", "nodump"));
    assert!(!rom.attr("status", "none"));
    assert!(!rom.attr("region", "r"));
    assert_eq!(
        rom,
        Rom {
            name: "name".to_owned(),
            size: "size".to_owned(),
            crc: "crc".to_owned(),
            sha1: "sha1".to_owned(),
            sha256: "sha256".to_owned(),
            md5: "md5".to_owned(),
            merge: "merge".to_owned(),
            status: Status::NoDump,
            date: "date".to_owned(),
            serial: "serial".to_owned(),
        }
    );
    let mut disk = Disk::default();
    for key in ["name", "sha1", "md5", "merge"] {
        assert!(disk.attr(key, key));
    }
    assert!(disk.attr("status", "verified"));
    assert!(!disk.attr("size", "1"));
    assert_eq!(
        disk,
        Disk {
            name: "name".to_owned(),
            sha1: "sha1".to_owned(),
            md5: "md5".to_owned(),
            merge: "merge".to_owned(),
            status: Status::Verified,
        }
    );
    let mut sample = Sample::default();
    assert!(sample.attr("name", "s"));
    assert!(!sample.attr("size", "1"));
    assert_eq!(sample, Sample { name: "s".to_owned() });
    let mut archive = Archive::default();
    assert!(archive.attr("name", "a"));
    assert!(!archive.attr("size", "1"));
    assert_eq!(archive, Archive { name: "a".to_owned() });
}

#[test]
fn elements_dispatch_by_kind() {
    let mut element = Element::Rom(Rom::default());
    assert!(element.attr("status", "baddump"));
    assert!(!element.attr("plugin", "p"));
    assert_eq!(element.child("rom"), None);
    assert!(element.content().is_none());
    match &element {
        Element::Rom(rom) => assert_eq!(rom.status, Status::BadDump),
        other => panic!("unexpected element {:?}", other),
    }
    let mut element = Element::Header(Header::default());
    assert!(!element.attr("name", "n"));
    assert!(element.child("name").is_some());
    assert!(element.content().is_none());
    element.adopt(XmlCursor { tag: "name", element: Element::Text("n".to_owned()) });
    match &element {
        Element::Header(h) => assert_eq!(h.name, "n"),
        other => panic!("unexpected element {:?}", other),
    }
    let mut element = Element::Game(Game::default());
    assert!(element.attr("name", "g"));
    element.adopt(XmlCursor { tag: "rom", element: Element::Rom(Rom::default()) });
    match &element {
        Element::Game(g) => assert_eq!((g.name.as_str(), g.roms.len()), ("g", 1)),
        other => panic!("unexpected element {:?}", other),
    }
    let mut element = Element::DataFile(DataFile::default());
    assert!(element.attr("build", "b"));
    assert!(element.child("game").is_some());
    element.adopt(XmlCursor { tag: "game", element: Element::Game(Game::default()) });
    match &element {
        Element::DataFile(d) => assert_eq!((d.build.as_str(), d.games.len()), ("b", 1)),
        other => panic!("unexpected element {:?}", other),
    }
}

#[test]
fn only_text_takes_content() {
    let mut element = Element::Text("ab".to_owned());
    assert!(!element.attr("name", "n"));
    assert_eq!(element.child("name"), None);
    element.content().unwrap().push_str("cd");
    assert_eq!(element, Element::Text("abcd".to_owned()));
    element.adopt(XmlCursor { tag: "name", element: Element::Text("x".to_owned()) });
    assert_eq!(element, Element::Text("abcd".to_owned()));
    for mut other in [
        Element::DataFile(DataFile::default()),
        Element::ClrMamePro(ClrMamePro::default()),
        Element::RomCenter(RomCenter::default()),
        Element::Game(Game::default()),
        Element::Release(Release::default()),
        Element::BiosSet(BiosSet::default()),
        Element::Disk(Disk::default()),
        Element::Sample(Sample::default()),
        Element::Archive(Archive::default()),
    ] {
        assert!(other.content().is_none());
    }
}

#[test]
fn error_messages_name_what_was_unexpected() {
    match unexpected_attribute("game", "isbios", "maybe") {
        DatReaderError::UnexpectedAttribute(m) => {
            assert_eq!(m, "Unexpected attribute \"isbios\"=\"maybe\" in element \"game\"")
        }
        other => panic!("unexpected error {:?}", other),
    }
    match unexpected_root("catalog") {
        DatReaderError::UnexpectedElement(m) => {
            assert_eq!(m, "Unexpected top-level element \"catalog\"")
        }
        other => panic!("unexpected error {:?}", other),
    }
    match unexpected_child("game", "bogus") {
        DatReaderError::UnexpectedElement(m) => {
            assert_eq!(m, "Unexpected child element \"bogus\" in element \"game\"")
        }
        other => panic!("unexpected error {:?}", other),
    }
    assert_eq!(truncated_text("rom"), "Unexpected EOF while reading element \"rom\"");
    assert_eq!(no_document_text(), "Unexpected EOF before a datafile element was seen");
    assert_eq!(
        DatReaderError::UnexpectedElement("text".to_owned()).message(),
        "text"
    );
    assert_eq!(
        DatReaderError::UnexpectedAttribute("text".to_owned()).message(),
        "text"
    );
}

#[test]
fn records_can_be_cloned() {
    let mut header = Header::default();
    header.name = "n".to_owned();
    header.clr_mame_pro = Some(ClrMamePro::default());
    let mut profile = RomCenter::default();
    profile.lock_rom_mode = true;
    header.rom_center = Some(profile);
    assert_eq!(header.clone(), header);
    let doc = DataFile {
        build: "b".to_owned(),
        debug: true,
        header: Some(header),
        games: vec![Game::default()],
    };
    assert_eq!(doc.clone(), doc);
}
