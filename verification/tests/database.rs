use rchip8::database::{Compatibility, RomInfo};

#[test]
fn default_rom_info_is_not_in_list() {
    let info = RomInfo::default();
    assert_eq!(info.title, "");
    assert_eq!(info.compatibility, Compatibility::NotInList);
    assert_eq!(Compatibility::default(), Compatibility::NotInList);
}

#[test]
fn compatibility_warnings() {
    assert_eq!(
        Compatibility::NotInList.message(),
        "warning: program is not in rom database so compatibility is not guaranteed"
    );
    assert_eq!(
        Compatibility::NotCompatible.message(),
        "warning: program is not compatible with the original chip-8\nthe program may run, but not correctly"
    );
}
