use datfile::{
    ClrMamePro, DatReader, DatReaderError, DataFile, Element, ForceMerging, ForceNoDump,
    ForcePacking, Game, Header, Rom, RomCenter, RomMode, SampleMode, Status, XmlCursor,
};

fn read_strict(xml: &str) -> Result<DataFile, DatReaderError> {
    DatReader::from_string(xml).read_all()
}

fn read_lenient(xml: &str) -> Result<DataFile, DatReaderError> {
    let mut reader = DatReader::from_string(xml);
    reader.set_strict(false);
    reader.read_all()
}

fn unexpected_element(r: Result<DataFile, DatReaderError>) -> String {
    match r {
        Err(DatReaderError::UnexpectedElement(m)) => m,
        other => panic!("expected an unexpected-element error, got {:?}", other),
    }
}

fn unexpected_attribute(r: Result<DataFile, DatReaderError>) -> String {
    match r {
        Err(DatReaderError::UnexpectedAttribute(m)) => m,
        other => panic!("expected an unexpected-attribute error, got {:?}", other),
    }
}

fn xml_error(r: Result<DataFile, DatReaderError>) -> quick_xml::Error {
    match r {
        Err(DatReaderError::Xml(e)) => e,
        other => panic!("expected an XML error, got {:?}", other),
    }
}

#[test]
fn empty_datafile_has_no_header_and_no_games() {
    let doc = read_strict("<datafile/>").unwrap();
    assert_eq!(doc, DataFile::default());
    assert_eq!(doc.build, "");
    assert!(!doc.debug);
    assert_eq!(doc.header, None);
    assert!(doc.games.is_empty());
}

#[test]
fn open_and_close_datafile_is_empty_too() {
    let doc = read_strict("<datafile></datafile>").unwrap();
    assert_eq!(doc, DataFile::default());
}

#[test]
fn datafile_attributes_are_read() {
    let doc = read_strict("<datafile build=\"B1\" debug=\"no\"/>").unwrap();
    assert_eq!(doc.build, "B1");
    assert!(!doc.debug);
    let doc = read_strict("<datafile debug=\"yes\"/>").unwrap();
    assert!(doc.debug);
}

#[test]
fn rom_without_status_is_good() {
    let doc = read_strict("<datafile><game><rom name=\"r\"/></game></datafile>").unwrap();
    assert_eq!(doc.games.len(), 1);
    assert_eq!(doc.games[0].roms.len(), 1);
    assert_eq!(doc.games[0].roms[0].status, Status::Good);
    assert_eq!(doc.games[0].roms[0].name, "r");
}

#[test]
fn disk_without_status_is_good() {
    let doc = read_strict("<datafile><game><disk name=\"d\"/></game></datafile>").unwrap();
    assert_eq!(doc.games[0].disks[0].status, Status::Good);
}

#[test]
fn every_status_token_is_read() {
    let doc = read_strict(
        "<datafile><game>\
         <rom status=\"baddump\"/><rom status=\"nodump\"/>\
         <rom status=\"good\"/><rom status=\"verified\"/>\
         </game></datafile>",
    )
    .unwrap();
    let found: Vec<Status> = doc.games[0].roms.iter().map(|r| r.status).collect();
    assert_eq!(found, vec![Status::BadDump, Status::NoDump, Status::Good, Status::Verified]);
}

#[test]
fn absent_tool_profiles_are_none() {
    let doc = read_strict("<datafile><header><name>N</name></header></datafile>").unwrap();
    let header = doc.header.unwrap();
    assert_eq!(header.name, "N");
    assert_eq!(header.clr_mame_pro, None);
    assert_eq!(header.rom_center, None);
}

#[test]
fn absent_header_is_none() {
    let doc = read_strict("<datafile><game/></datafile>").unwrap();
    assert_eq!(doc.header, None);
}

#[test]
fn empty_tool_profiles_hold_their_defaults() {
    let doc =
        read_strict("<datafile><header><clrmamepro/><romcenter/></header></datafile>").unwrap();
    let header = doc.header.unwrap();
    assert_eq!(
        header.clr_mame_pro,
        Some(ClrMamePro {
            header: "".to_owned(),
            force_merging: ForceMerging::Split,
            force_no_dump: ForceNoDump::Obsolete,
            force_packing: ForcePacking::Zip,
        })
    );
    assert_eq!(
        header.rom_center,
        Some(RomCenter {
            plugin: "".to_owned(),
            rom_mode: RomMode::Split,
            bios_mode: RomMode::Split,
            sample_mode: SampleMode::Merged,
            lock_rom_mode: false,
            lock_bios_mode: false,
            lock_sample_mode: false,
        })
    );
}

#[test]
fn enumeration_defaults() {
    assert_eq!(ForceMerging::default(), ForceMerging::Split);
    assert_eq!(ForceNoDump::default(), ForceNoDump::Obsolete);
    assert_eq!(ForcePacking::default(), ForcePacking::Zip);
    assert_eq!(RomMode::default(), RomMode::Split);
    assert_eq!(SampleMode::default(), SampleMode::Merged);
    assert_eq!(Status::default(), Status::Good);
}

#[test]
fn record_defaults() {
    let profile = ClrMamePro::default();
    assert_eq!(profile.header, "");
    assert_eq!(profile.force_merging, ForceMerging::Split);
    assert_eq!(profile.force_no_dump, ForceNoDump::Obsolete);
    assert_eq!(profile.force_packing, ForcePacking::Zip);
    let profile = RomCenter::default();
    assert_eq!(profile.rom_mode, RomMode::Split);
    assert_eq!(profile.bios_mode, RomMode::Split);
    assert_eq!(profile.sample_mode, SampleMode::Merged);
    assert!(!profile.lock_rom_mode && !profile.lock_bios_mode && !profile.lock_sample_mode);
    let header = Header::default();
    assert_eq!(header.clr_mame_pro, None);
    assert_eq!(header.rom_center, None);
    let game = Game::default();
    assert!(!game.is_bios);
    assert!(game.roms.is_empty() && game.comments.is_empty());
    assert_eq!(Rom::default().status, Status::Good);
}

#[test]
fn tool_profile_tokens_are_read() {
    let doc = read_strict(
        "<datafile><header>\
         <clrmamepro forcemerging=\"none\" forcenodump=\"required\" forcepacking=\"zip\"/>\
         <romcenter rommode=\"merged\" biosmode=\"split\" samplemode=\"merged\" lockrommode=\"no\"/>\
         </header></datafile>",
    )
    .unwrap();
    let header = doc.header.unwrap();
    let clr = header.clr_mame_pro.unwrap();
    assert_eq!(clr.force_merging, ForceMerging::NoMerging);
    assert_eq!(clr.force_no_dump, ForceNoDump::Required);
    assert_eq!(clr.force_packing, ForcePacking::Zip);
    let rc = header.rom_center.unwrap();
    assert_eq!(rc.rom_mode, RomMode::Merged);
    assert_eq!(rc.bios_mode, RomMode::Split);
    assert_eq!(rc.sample_mode, SampleMode::Merged);
    assert!(!rc.lock_rom_mode);
}

#[test]
fn strict_rejects_unknown_top_level_element() {
    let message = unexpected_element(read_strict("<catalog><game/></catalog>"));
    assert_eq!(message, "Unexpected top-level element \"catalog\"");
}

#[test]
fn strict_rejects_unknown_top_level_element_after_a_datafile() {
    let message = unexpected_element(read_strict("<datafile/><extra/>"));
    assert_eq!(message, "Unexpected top-level element \"extra\"");
}

#[test]
fn strict_rejects_unknown_child_of_game() {
    let message = unexpected_element(read_strict("<datafile><game><bogus/></game></datafile>"));
    assert_eq!(message, "Unexpected child element \"bogus\" in element \"game\"");
}

#[test]
fn strict_rejects_unknown_child_of_datafile_and_header() {
    let message = unexpected_element(read_strict("<datafile><rom/></datafile>"));
    assert_eq!(message, "Unexpected child element \"rom\" in element \"datafile\"");
    let message = unexpected_element(read_strict("<datafile><header><game/></header></datafile>"));
    assert_eq!(message, "Unexpected child element \"game\" in element \"header\"");
}

#[test]
fn strict_rejects_children_of_leaves_and_of_text() {
    let message =
        unexpected_element(read_strict("<datafile><game><rom><rom/></rom></game></datafile>"));
    assert_eq!(message, "Unexpected child element \"rom\" in element \"rom\"");
    let message =
        unexpected_element(read_strict("<datafile><game><year><b/></year></game></datafile>"));
    assert_eq!(message, "Unexpected child element \"b\" in element \"year\"");
}

#[test]
fn lenient_skips_unknown_top_level_element() {
    let doc = read_lenient("<catalog><game name=\"hidden\"/></catalog><datafile build=\"b\"/>")
        .unwrap();
    assert_eq!(doc.build, "b");
    assert!(doc.games.is_empty());
}

#[test]
fn lenient_with_only_unknown_top_level_element_has_no_document() {
    match xml_error(read_lenient("<catalog><game/></catalog>")) {
        quick_xml::Error::UnexpectedEof(m) => {
            assert_eq!(m, "Unexpected EOF before a datafile element was seen")
        }
        other => panic!("unexpected error {:?}", other),
    }
}

#[test]
fn lenient_skips_unknown_child_with_all_it_holds() {
    let xml = "<datafile><game name=\"g\">\
               <rom name=\"before\"/>\
               <bogus><rom name=\"inside\"/><bogus><disk name=\"deep\"/></bogus>text</bogus>\
               <rom name=\"after\"/>\
               </game></datafile>";
    let doc = read_lenient(xml).unwrap();
    assert_eq!(doc.games.len(), 1);
    let names: Vec<&str> = doc.games[0].roms.iter().map(|r| r.name.as_str()).collect();
    assert_eq!(names, vec!["before", "after"]);
    assert!(doc.games[0].disks.is_empty());
    let without = "<datafile><game name=\"g\">\
                   <rom name=\"before\"/>\
                   <rom name=\"after\"/>\
                   </game></datafile>";
    assert_eq!(doc, read_lenient(without).unwrap());
}

#[test]
fn lenient_skips_game_inside_unknown_child_of_datafile() {
    let doc = read_lenient("<datafile><wrap><game name=\"x\"/></wrap><game name=\"y\"/></datafile>")
        .unwrap();
    assert_eq!(doc.games.len(), 1);
    assert_eq!(doc.games[0].name, "y");
}

#[test]
fn isbios_yes_sets_the_flag() {
    let doc = read_strict("<datafile><game isbios=\"yes\"/></datafile>").unwrap();
    assert!(doc.games[0].is_bios);
    let doc = read_strict("<datafile><game isbios=\"no\"/></datafile>").unwrap();
    assert!(!doc.games[0].is_bios);
}

#[test]
fn isbios_maybe_fails_in_strict_mode() {
    let message = unexpected_attribute(read_strict("<datafile><game isbios=\"maybe\"/></datafile>"));
    assert_eq!(message, "Unexpected attribute \"isbios\"=\"maybe\" in element \"game\"");
}

#[test]
fn isbios_maybe_leaves_the_flag_off_in_lenient_mode() {
    let doc = read_lenient("<datafile><game isbios=\"maybe\" name=\"n\"/></datafile>").unwrap();
    assert!(!doc.games[0].is_bios);
    assert_eq!(doc.games[0].name, "n");
}

#[test]
fn flags_are_case_sensitive() {
    let message = unexpected_attribute(read_strict("<datafile debug=\"Yes\"/>"));
    assert_eq!(message, "Unexpected attribute \"debug\"=\"Yes\" in element \"datafile\"");
}

#[test]
fn refused_value_keeps_an_earlier_value_in_lenient_mode() {
    let doc = read_lenient(
        "<datafile><game><rom status=\"verified\"/><rom status=\"broken\"/></game></datafile>",
    )
    .unwrap();
    assert_eq!(doc.games[0].roms[0].status, Status::Verified);
    assert_eq!(doc.games[0].roms[1].status, Status::Good);
}

#[test]
fn unknown_attribute_fails_in_strict_mode_and_is_dropped_in_lenient_mode() {
    let xml = "<datafile><game name=\"n\" colour=\"red\" board=\"b\"/></datafile>";
    let message = unexpected_attribute(read_strict(xml));
    assert_eq!(message, "Unexpected attribute \"colour\"=\"red\" in element \"game\"");
    let doc = read_lenient(xml).unwrap();
    assert_eq!(doc.games[0].name, "n");
    assert_eq!(doc.games[0].board, "b");
}

#[test]
fn header_and_text_elements_take_no_attributes() {
    let message = unexpected_attribute(read_strict("<datafile><header name=\"n\"/></datafile>"));
    assert_eq!(message, "Unexpected attribute \"name\"=\"n\" in element \"header\"");
    let message = unexpected_attribute(read_strict(
        "<datafile><game><year lang=\"en\">1990</year></game></datafile>",
    ));
    assert_eq!(message, "Unexpected attribute \"lang\"=\"en\" in element \"year\"");
}

#[test]
fn schema_attributes_id_cloneofid_and_sha256_are_read() {
    let doc = read_strict(
        "<datafile><game id=\"1\" cloneofid=\"2\"><rom sha256=\"abc\"/></game></datafile>",
    )
    .unwrap();
    assert_eq!(doc.games[0].id, "1");
    assert_eq!(doc.games[0].clone_of_id, "2");
    assert_eq!(doc.games[0].roms[0].sha256, "abc");
}

#[test]
fn games_come_out_one_per_element_in_document_order() {
    let doc = read_strict(
        "<datafile><game name=\"a\"/><game name=\"b\"></game><game name=\"a\"/></datafile>",
    )
    .unwrap();
    let names: Vec<&str> = doc.games.iter().map(|g| g.name.as_str()).collect();
    assert_eq!(names, vec!["a", "b", "a"]);
}

#[test]
fn repeated_children_accumulate_in_order() {
    let doc = read_strict(
        "<datafile><game>\
         <comment>c1</comment><sample name=\"s1\"/><comment>c2</comment>\
         <archive name=\"a1\"/><sample name=\"s2\"/><biosset name=\"b1\"/>\
         <release name=\"r1\"/><release name=\"r2\"/>\
         </game></datafile>",
    )
    .unwrap();
    let game = &doc.games[0];
    assert_eq!(game.comments, vec!["c1".to_owned(), "c2".to_owned()]);
    assert_eq!(game.samples.len(), 2);
    assert_eq!(game.samples[1].name, "s2");
    assert_eq!(game.archives.len(), 1);
    assert_eq!(game.bios_sets.len(), 1);
    assert_eq!(game.releases[0].name, "r1");
    assert_eq!(game.releases[1].name, "r2");
}

#[test]
fn reading_twice_gives_equal_catalogs() {
    let xml = "<datafile build=\"x\"><header><name>N</name></header>\
               <game name=\"g\"><rom name=\"r\" status=\"nodump\"/></game></datafile>";
    assert_eq!(read_strict(xml).unwrap(), read_strict(xml).unwrap());
    assert_eq!(read_lenient(xml).unwrap(), read_strict(xml).unwrap());
}

#[test]
fn a_second_header_goes_on_with_the_first() {
    let doc = read_strict(
        "<datafile><header><name>N</name><clrmamepro header=\"h\"/></header>\
         <header><description>D</description><clrmamepro forcepacking=\"unzip\"/></header>\
         </datafile>",
    )
    .unwrap();
    let header = doc.header.unwrap();
    assert_eq!(header.name, "N");
    assert_eq!(header.description, "D");
    let clr = header.clr_mame_pro.unwrap();
    assert_eq!(clr.header, "h");
    assert_eq!(clr.force_packing, ForcePacking::Unzip);
}

#[test]
fn a_second_datafile_goes_on_with_the_first() {
    let doc = read_strict(
        "<datafile build=\"one\"><game name=\"a\"/></datafile>\
         <datafile debug=\"yes\"><game name=\"b\"/></datafile>",
    )
    .unwrap();
    assert_eq!(doc.build, "one");
    assert!(doc.debug);
    assert_eq!(doc.games.len(), 2);
    assert_eq!(doc.games[1].name, "b");
}

#[test]
fn a_repeated_text_element_adds_to_the_text() {
    let doc = read_strict("<datafile><header><name>A</name><name>B</name></header></datafile>")
        .unwrap();
    assert_eq!(doc.header.unwrap().name, "AB");
}

#[test]
fn game_name_comes_from_attribute_or_element() {
    let doc = read_strict("<datafile><game name=\"attr\"><name>+elem</name></game></datafile>")
        .unwrap();
    assert_eq!(doc.games[0].name, "attr+elem");
}

#[test]
fn text_is_trimmed_and_unescaped() {
    let doc = read_strict(
        "<datafile><header><name>  A &amp; B &#65;  </name>\
         <comment><![CDATA[x < y & z]]></comment></header></datafile>",
    )
    .unwrap();
    let header = doc.header.unwrap();
    assert_eq!(header.name, "A & B A");
    assert_eq!(header.comment, "x < y & z");
}

#[test]
fn attribute_values_are_unescaped() {
    let doc = read_strict("<datafile><game name=\"A &lt; B &quot;C&quot;\"/></datafile>").unwrap();
    assert_eq!(doc.games[0].name, "A < B \"C\"");
}

#[test]
fn text_outside_text_elements_is_dropped_unread() {
    let doc = read_strict("<datafile>stray &bogus; text<game>more</game></datafile>").unwrap();
    assert_eq!(doc.games.len(), 1);
    assert_eq!(doc.games[0], Game::default());
}

#[test]
fn malformed_escape_in_text_element_fails() {
    match xml_error(read_lenient("<datafile><header><name>&bogus;</name></header></datafile>")) {
        quick_xml::Error::EscapeError(_) => {}
        other => panic!("unexpected error {:?}", other),
    }
}

#[test]
fn malformed_escape_in_attribute_fails() {
    match xml_error(read_lenient("<datafile><game name=\"&bogus;\"/></datafile>")) {
        quick_xml::Error::EscapeError(_) => {}
        other => panic!("unexpected error {:?}", other),
    }
}

#[test]
fn comments_and_declarations_are_passed_over() {
    let doc = read_strict(
        "<?xml version=\"1.0\"?><!-- c --><datafile><!-- c --><game><!-- c --></game></datafile>",
    )
    .unwrap();
    assert_eq!(doc.games.len(), 1);
}

#[test]
fn empty_input_has_no_document() {
    let error = read_strict("").unwrap_err();
    assert_eq!(
        error.message(),
        "Unexpected EOF during reading Unexpected EOF before a datafile element was seen."
    );
    match error {
        DatReaderError::Xml(quick_xml::Error::UnexpectedEof(m)) => {
            assert_eq!(m, "Unexpected EOF before a datafile element was seen")
        }
        other => panic!("unexpected error {:?}", other),
    }
}

#[test]
fn input_that_ends_inside_an_element_fails() {
    match xml_error(read_strict("<datafile><game>")) {
        quick_xml::Error::UnexpectedEof(m) => {
            assert_eq!(m, "Unexpected EOF while reading element \"game\"")
        }
        other => panic!("unexpected error {:?}", other),
    }
    match xml_error(read_lenient("<datafile><header><name>x")) {
        quick_xml::Error::UnexpectedEof(m) => {
            assert_eq!(m, "Unexpected EOF while reading element \"name\"")
        }
        other => panic!("unexpected error {:?}", other),
    }
}

#[test]
fn input_that_ends_inside_a_skipped_element_fails_in_the_parent() {
    match xml_error(read_lenient("<datafile><bogus><deep>")) {
        quick_xml::Error::UnexpectedEof(m) => {
            assert_eq!(m, "Unexpected EOF while reading element \"datafile\"")
        }
        other => panic!("unexpected error {:?}", other),
    }
}

#[test]
fn input_that_ends_inside_a_skipped_top_level_element_fails() {
    for xml in ["<datafile/><foo>", "<datafile/><foo><bar/>", "<datafile/><foo><datafile/>"] {
        match xml_error(read_lenient(xml)) {
            quick_xml::Error::UnexpectedEof(m) => {
                assert_eq!(m, "Unexpected EOF while reading element \"foo\"")
            }
            other => panic!("unexpected error {:?}", other),
        }
    }
    match xml_error(read_lenient("<foo><bar>")) {
        quick_xml::Error::UnexpectedEof(m) => {
            assert_eq!(m, "Unexpected EOF while reading element \"foo\"")
        }
        other => panic!("unexpected error {:?}", other),
    }
    assert_eq!(read_lenient("<datafile/><foo></foo>").unwrap(), DataFile::default());
}

#[test]
fn skipping_without_an_end_fails_and_names_the_element() {
    let mut reader = DatReader::from_string("<rom name=\"r\"><deep/>text</rom>");
    match reader.skip_content("outer") {
        Err(DatReaderError::Xml(quick_xml::Error::UnexpectedEof(m))) => {
            assert_eq!(m, "Unexpected EOF while reading element \"outer\"")
        }
        other => panic!("unexpected outcome {:?}", other),
    }
    let mut reader = DatReader::from_string("");
    assert!(matches!(
        reader.skip_content("x"),
        Err(DatReaderError::Xml(quick_xml::Error::UnexpectedEof(_)))
    ));
}

#[test]
fn content_without_an_end_fails_and_names_the_element() {
    let mut reader = DatReader::from_string("<rom name=\"r\"/>");
    let mut cursor = XmlCursor { tag: "game", element: Element::Game(Game::default()) };
    match reader.read_content(&mut cursor) {
        Err(DatReaderError::Xml(quick_xml::Error::UnexpectedEof(m))) => {
            assert_eq!(m, "Unexpected EOF while reading element \"game\"")
        }
        other => panic!("unexpected outcome {:?}", other),
    }
}

#[test]
fn mismatched_end_tag_fails_in_both_modes() {
    match xml_error(read_strict("<datafile><game></datafile>")) {
        quick_xml::Error::EndEventMismatch { expected, found } => {
            assert_eq!(expected, "game");
            assert_eq!(found, "datafile");
        }
        other => panic!("unexpected error {:?}", other),
    }
    assert!(matches!(
        read_lenient("<datafile><game></datafile>"),
        Err(DatReaderError::Xml(quick_xml::Error::EndEventMismatch { .. }))
    ));
}

#[test]
fn duplicated_attribute_fails_in_both_modes() {
    assert!(matches!(
        read_strict("<datafile><game name=\"a\" name=\"b\"/></datafile>"),
        Err(DatReaderError::Xml(quick_xml::Error::DuplicatedAttribute(_, _)))
    ));
    assert!(matches!(
        read_lenient("<datafile><game name=\"a\" name=\"b\"/></datafile>"),
        Err(DatReaderError::Xml(quick_xml::Error::DuplicatedAttribute(_, _)))
    ));
}

#[test]
fn a_refused_attribute_is_reported_before_a_later_malformed_one() {
    let xml = "<datafile colour=\"red\" broken build=\"b\"></datafile>";
    let message = unexpected_attribute(read_strict(xml));
    assert_eq!(message, "Unexpected attribute \"colour\"=\"red\" in element \"datafile\"");
    assert!(matches!(
        read_lenient(xml),
        Err(DatReaderError::Xml(quick_xml::Error::NoEqAfterName(_)))
    ));
}

#[test]
fn malformed_input_inside_a_skipped_element_fails() {
    assert!(matches!(
        read_lenient("<datafile><bogus><a></b></bogus></datafile>"),
        Err(DatReaderError::Xml(quick_xml::Error::EndEventMismatch { .. }))
    ));
}

#[test]
fn from_reader_reads_bytes() {
    let doc = DatReader::from_reader(b"<datafile build=\"bytes\"><game/></datafile>")
        .read_all()
        .unwrap();
    assert_eq!(doc.build, "bytes");
    assert_eq!(doc.games.len(), 1);
}

#[test]
fn bytes_that_are_not_utf8_fail_where_they_are_decoded() {
    assert!(matches!(
        DatReader::from_reader(b"<data\xfffile/>").read_all(),
        Err(DatReaderError::Xml(quick_xml::Error::Utf8(_)))
    ));
    assert!(matches!(
        DatReader::from_reader(b"<datafile build=\"\xff\"/>").read_all(),
        Err(DatReaderError::Xml(quick_xml::Error::Utf8(_)))
    ));
    assert!(matches!(
        DatReader::from_reader(b"<datafile><header><name>\xff</name></header></datafile>")
            .read_all(),
        Err(DatReaderError::Xml(quick_xml::Error::Utf8(_)))
    ));
    let mut reader = DatReader::from_reader(b"<datafile><bogus><b\xff>\xff</b\xff></bogus></datafile>");
    reader.set_strict(false);
    assert_eq!(reader.read_all().unwrap(), DataFile::default());
}

#[test]
fn set_strict_can_be_switched_back() {
    let mut reader = DatReader::from_string("<other/>");
    reader.set_strict(false);
    reader.set_strict(true);
    assert_eq!(unexpected_element(reader.read_all()), "Unexpected top-level element \"other\"");
}

#[test]
fn deep_unknown_nesting_is_skipped() {
    let mut xml = String::from("<datafile>");
    for _ in 0..2000 {
        xml.push_str("<x>");
    }
    for _ in 0..2000 {
        xml.push_str("</x>");
    }
    xml.push_str("<game name=\"last\"/></datafile>");
    let doc = read_lenient(&xml).unwrap();
    assert_eq!(doc.games.len(), 1);
    assert_eq!(doc.games[0].name, "last");
}

#[test]
fn error_messages_are_the_text_of_the_error() {
    let error = read_strict("<other/>").unwrap_err();
    assert_eq!(error.message(), "Unexpected top-level element \"other\"");
    let error = read_strict("<datafile x=\"1\"/>").unwrap_err();
    assert_eq!(error.message(), "Unexpected attribute \"x\"=\"1\" in element \"datafile\"");
    let error = read_strict("<datafile><game></datafile>").unwrap_err();
    assert_eq!(error.message(), "Expecting </game> found </datafile>");
}

#[test]
fn an_xml_error_converts_into_a_reader_error() {
    let error = DatReaderError::from(quick_xml::Error::UnexpectedBang);
    assert!(matches!(error, DatReaderError::Xml(quick_xml::Error::UnexpectedBang)));
}
