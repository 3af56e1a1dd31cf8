use drag::atom::{atom_names, XDNDAtoms, ATOM_NAME_COUNT, XA_ATOM};

#[test]
fn atom_names_lists_every_protocol_name_in_order() {
    let names = atom_names();
    assert_eq!(names.len(), ATOM_NAME_COUNT);
    assert_eq!(
        names,
        vec![
            "XdndAware",
            "XdndEnter",
            "XdndSelection",
            "XdndPosition",
            "XdndActionCopy",
            "XdndLeave",
            "XdndStatus",
            "XdndDrop",
            "text/uri-list",
        ]
    );
}

#[test]
fn the_generic_atom_type_is_the_predefined_atom() {
    // the XdndAware property's type is the core protocol's ATOM,
    // which is predefined, never interned
    assert_eq!(XA_ATOM, 4);
    assert!(!atom_names().contains(&"XA_ATOM"));
    assert!(!atom_names().contains(&"ATOM"));
}

#[test]
fn atom_table_holds_resolved_values_in_name_order() {
    let atoms = XDNDAtoms::new(11, 12, 13, 14, 15, 16, 17, 18, 19, 20);
    assert_eq!(atoms.xdnd_aware, 11);
    assert_eq!(atoms.xdnd_enter, 12);
    assert_eq!(atoms.xdnd_selection, 13);
    assert_eq!(atoms.xdnd_position, 14);
    assert_eq!(atoms.xdnd_action_copy, 15);
    assert_eq!(atoms.xdnd_leave, 16);
    assert_eq!(atoms.xdnd_status, 17);
    assert_eq!(atoms.xdnd_drop, 18);
    assert_eq!(atoms.xa_atom, 19);
    assert_eq!(atoms.types[0], 20);
}
