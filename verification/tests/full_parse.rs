use datfile::{
    Archive, BiosSet, ClrMamePro, DatReader, DataFile, Disk, ForceMerging, ForceNoDump,
    ForcePacking, Game, Header, Release, Rom, RomCenter, RomMode, Sample, SampleMode, Status,
};

#[test]
fn test_full_parse() {
    let input = r#"
<?xml version="1.0"?>
<!DOCTYPE datafile PUBLIC "-//Logiqx//DTD ROM Management Datafile//EN" "http://www.logiqx.com/Dats/datafile.dtd">
<datafile build="Build" debug="yes">
    <header>
        <name>Name</name>
        <description>Description</description>
        <category>Category</category>
        <version>Version</version>
        <date>Date</date>
        <author>Author</author>
        <email>Email</email>
        <homepage>Homepage</homepage>
        <url>Url</url>
        <comment>Comment</comment>
        <clrmamepro header="Header" forcemerging="full" forcenodump="ignore" forcepacking="unzip" />
        <romcenter plugin="Plugin" rommode="unmerged" biosmode="unmerged" samplemode="unmerged" lockrommode="yes" lockbiosmode="yes" locksamplemode="yes" />
    </header>
    <game name="Name" sourcefile="Sourcefile" isbios="yes" cloneof="Cloneof" romof="Romof" sampleof="Sampleof" board="Board" rebuildto="Rebuildto">
        <comment>Comment1</comment>
        <comment>Comment2</comment>
        <description>Description</description>
        <year>Year</year>
        <manufacturer>Manufacturer</manufacturer>
        <release name="Name1" region="Region1" language="Language1" date="Date1" default="yes" />
        <release name="Name2" region="Region2" language="Language2" date="Date2" default="no" />
        <biosset name="Name1" description="Description1" default="yes" />
        <biosset name="Name2" description="Description2" default="yes" />
        <rom name="Name1" size="Size1" crc="Crc1" sha1="Sha1" md5="Md1" merge="Merge1" status="baddump" date="Date1" serial="Serial1" />
        <rom name="Name2" size="Size2" crc="Crc2" sha1="Sha2" md5="Md2" merge="Merge2" status="verified" date="Date2" serial="Serial2" />
        <disk name="Name1" sha1="Sha1" md5="Md1" merge="Merge1" status="baddump" />
        <disk name="Name2" sha1="Sha2" md5="Md2" merge="Merge2" status="verified" />
        <sample name="Name1" />
        <sample name="Name2" />
        <archive name="Name1" />
        <archive name="Name2" />
    </game>
    <game name="Name2">
        <description>Description2</description>
    </game>
</datafile>"#;
    let reader = DatReader::from_string(&input);
    let data_file = reader.read_all().unwrap();
    assert_eq!(
        data_file,
        DataFile {
            build: "Build".to_owned(),
            debug: true,
            header: Some(Header {
                name: "Name".to_owned(),
                description: "Description".to_owned(),
                category: "Category".to_owned(),
                version: "Version".to_owned(),
                date: "Date".to_owned(),
                author: "Author".to_owned(),
                email: "Email".to_owned(),
                homepage: "Homepage".to_owned(),
                url: "Url".to_owned(),
                comment: "Comment".to_owned(),
                clr_mame_pro: Some(ClrMamePro {
                    header: "Header".to_owned(),
                    force_merging: ForceMerging::Full,
                    force_no_dump: ForceNoDump::Ignore,
                    force_packing: ForcePacking::Unzip,
                }),
                rom_center: Some(RomCenter {
                    plugin: "Plugin".to_owned(),
                    rom_mode: RomMode::Unmerged,
                    bios_mode: RomMode::Unmerged,
                    sample_mode: SampleMode::Unmerged,
                    lock_rom_mode: true,
                    lock_bios_mode: true,
                    lock_sample_mode: true,
                })
            }),
            games: vec![
                Game {
                    id: "".to_owned(),
                    clone_of_id: "".to_owned(),
                    name: "Name".to_owned(),
                    description: "Description".to_owned(),
                    source_file: "Sourcefile".to_owned(),
                    is_bios: true,
                    clone_of: "Cloneof".to_owned(),
                    rom_of: "Romof".to_owned(),
                    sample_of: "Sampleof".to_owned(),
                    board: "Board".to_owned(),
                    rebuild_to: "Rebuildto".to_owned(),
                    comments: vec!["Comment1".to_owned(), "Comment2".to_owned()],
                    year: "Year".to_owned(),
                    manufacturer: "Manufacturer".to_owned(),
                    releases: vec![
                        Release {
                            name: "Name1".to_owned(),
                            region: "Region1".to_owned(),
                            language: "Language1".to_owned(),
                            date: "Date1".to_owned(),
                            default: true,
                        },
                        Release {
                            name: "Name2".to_owned(),
                            region: "Region2".to_owned(),
                            language: "Language2".to_owned(),
                            date: "Date2".to_owned(),
                            default: false,
                        }
                    ],
                    bios_sets: vec![
                        BiosSet {
                            name: "Name1".to_owned(),
                            description: "Description1".to_owned(),
                            default: true,
                        },
                        BiosSet {
                            name: "Name2".to_owned(),
                            description: "Description2".to_owned(),
                            default: true,
                        }
                    ],
                    roms: vec![
                        Rom {
                            name: "Name1".to_owned(),
                            size: "Size1".to_owned(),
                            crc: "Crc1".to_owned(),
                            sha1: "Sha1".to_owned(),
                            sha256: "".to_owned(),
                            md5: "Md1".to_owned(),
                            merge: "Merge1".to_owned(),
                            status: Status::BadDump,
                            date: "Date1".to_owned(),
                            serial: "Serial1".to_owned()
                        },
                        Rom {
                            name: "Name2".to_owned(),
                            size: "Size2".to_owned(),
                            crc: "Crc2".to_owned(),
                            sha1: "Sha2".to_owned(),
                            sha256: "".to_owned(),
                            md5: "Md2".to_owned(),
                            merge: "Merge2".to_owned(),
                            status: Status::Verified,
                            date: "Date2".to_owned(),
                            serial: "Serial2".to_owned()
                        }
                    ],
                    disks: vec![
                        Disk {
                            name: "Name1".to_owned(),
                            sha1: "Sha1".to_owned(),
                            md5: "Md1".to_owned(),
                            merge: "Merge1".to_owned(),
                            status: Status::BadDump,
                        },
                        Disk {
                            name: "Name2".to_owned(),
                            sha1: "Sha2".to_owned(),
                            md5: "Md2".to_owned(),
                            merge: "Merge2".to_owned(),
                            status: Status::Verified,
                        },
                    ],
                    samples: vec![
                        Sample {
                            name: "Name1".to_owned(),
                        },
                        Sample {
                            name: "Name2".to_owned(),
                        }
                    ],
                    archives: vec![
                        Archive {
                            name: "Name1".to_owned(),
                        },
                        Archive {
                            name: "Name2".to_owned(),
                        }
                    ],
                },
                Game {
                    id: "".to_owned(),
                    clone_of_id: "".to_owned(),
                    name: "Name2".to_owned(),
                    description: "Description2".to_owned(),
                    source_file: "".to_owned(),
                    is_bios: false,
                    clone_of: "".to_owned(),
                    rom_of: "".to_owned(),
                    sample_of: "".to_owned(),
                    board: "".to_owned(),
                    rebuild_to: "".to_owned(),
                    comments: vec![],
                    year: "".to_owned(),
                    manufacturer: "".to_owned(),
                    releases: vec![],
                    roms: vec![],
                    bios_sets: vec![],
                    disks: vec![],
                    samples: vec![],
                    archives: vec![],
                }
            ],
        }
    );
}
