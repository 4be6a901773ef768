use embed_plist::linker::{link, Program};
use embed_plist::{
    embed_info_plist_bytes, embed_launchd_plist_bytes, get_info_plist, get_launchd_plist,
    info_plist_region, launchd_plist_region,
};

const INFO_PLIST: &str = r#"<?xml version="1.0" encoding="UTF-8"?>
<!DOCTYPE plist PUBLIC "-//Apple//DTD PLIST 1.0//EN" "http://www.apple.com/DTDs/PropertyList-1.0.dtd">
<plist version="1.0">
<dict>
    <key>CFBundleIdentifier</key>
    <string>com.example.embedded</string>
</dict>
</plist>
"#;

const LAUNCHD_PLIST: &str = r#"<?xml version="1.0" encoding="UTF-8"?>
<!DOCTYPE plist PUBLIC "-//Apple//DTD PLIST 1.0//EN" "http://www.apple.com/DTDs/PropertyList-1.0.dtd">
<plist version="1.0">
<dict>
    <key>Label</key>
    <string>com.example.daemon</string>
    <key>ProgramArguments</key>
    <array>
        <string>Hello</string>
        <string>World</string>
    </array>
</dict>
</plist>
"#;

#[test]
fn info_plist_contents() {
    let source = INFO_PLIST.as_bytes();
    let mut program = Program::new();
    embed_info_plist_bytes(&mut program, source.to_vec());
    program.declare_read(info_plist_region());
    let image = link(&program).unwrap();
    let embedded = get_info_plist(&image);
    assert_eq!(embedded, source);
}

#[test]
fn launchd_plist_contents() {
    let source = LAUNCHD_PLIST.as_bytes();
    let mut program = Program::new();
    embed_launchd_plist_bytes(&mut program, source.to_vec());
    program.declare_read(launchd_plist_region());
    let image = link(&program).unwrap();
    let embedded = get_launchd_plist(&image);
    assert_eq!(embedded, source);
}

#[test]
fn both_plists_coexist() {
    let mut program = Program::new();
    embed_info_plist_bytes(&mut program, INFO_PLIST.as_bytes().to_vec());
    embed_launchd_plist_bytes(&mut program, LAUNCHD_PLIST.as_bytes().to_vec());
    program.declare_read(info_plist_region());
    program.declare_read(launchd_plist_region());
    let image = link(&program).unwrap();
    assert_eq!(get_info_plist(&image), INFO_PLIST.as_bytes());
    assert_eq!(get_launchd_plist(&image), LAUNCHD_PLIST.as_bytes());
}

#[test]
fn absent_plist_region_is_not_in_the_image() {
    let mut program = Program::new();
    embed_info_plist_bytes(&mut program, INFO_PLIST.as_bytes().to_vec());
    let image = link(&program).unwrap();
    assert!(image.read(launchd_plist_region().as_slice()).is_none());
}
