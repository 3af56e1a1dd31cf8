use drag::ole::{
    decode_file_list, dropfiles_buffer, encode_file_list, parse_dropfiles, DataObject,
    DataTransferError, DragUpdate, DropSource, FormatQuery, StgMedium, CF_HDROP,
    DRAGDROP_S_CANCEL, DRAGDROP_S_DROP, DRAGDROP_S_USEDEFAULTCURSORS, DROPFILES_HEADER_SIZE,
    DVASPECT_CONTENT, DV_E_FORMATETC, E_NOTIMPL, MK_LBUTTON, OLE_E_ADVISENOTSUPPORTED, S_OK,
    TYMED_HGLOBAL,
};

fn wide(s: &str) -> Vec<u16> {
    s.chars().map(|c| c as u16).collect()
}

#[test]
fn file_list_is_nul_separated_and_double_nul_terminated() {
    let paths = vec![vec![0x41u16], vec![0x42u16, 0x43u16]];
    let units = encode_file_list(&paths);
    assert_eq!(units, vec![0x41, 0, 0x42, 0x43, 0, 0]);
}

#[test]
fn file_list_round_trips_one_path() {
    let paths = vec![wide("C:\\a.txt")];
    let units = encode_file_list(&paths);
    assert_eq!(decode_file_list(&units), Some(paths));
}

#[test]
fn file_list_round_trips_many_paths() {
    let paths = vec![wide("C:\\a.txt"), wide("C:\\b c.png"), wide("D:\\x")];
    let units = encode_file_list(&paths);
    assert_eq!(decode_file_list(&units), Some(paths));
}

#[test]
fn lone_terminator_decodes_to_an_empty_list() {
    assert_eq!(decode_file_list(&vec![0u16]), Some(vec![]));
}

#[test]
fn malformed_file_lists_are_rejected() {
    // nothing at all
    assert_eq!(decode_file_list(&vec![]), None);
    // an empty path before the end of the list
    assert_eq!(decode_file_list(&vec![0u16, 0u16]), None);
    // a path with no terminator
    assert_eq!(decode_file_list(&vec![0x41u16]), None);
    // units after the closing terminator
    assert_eq!(decode_file_list(&vec![0x41u16, 0, 0, 0x42]), None);
}

#[test]
fn dropfiles_header_records_offset_and_wide_flag() {
    let paths = vec![vec![0x41u16]];
    let bytes = dropfiles_buffer(&paths);
    // the data-offset field always equals the fixed header size
    assert_eq!(
        &bytes[0..4],
        &[DROPFILES_HEADER_SIZE as u8, 0, 0, 0]
    );
    // the wide-character flag is set
    assert_eq!(&bytes[16..20], &[1, 0, 0, 0]);
    // the path list follows as little-endian pairs
    assert_eq!(&bytes[20..], &[0x41, 0, 0, 0, 0, 0]);
}

#[test]
fn dropfiles_block_round_trips() {
    let paths = vec![wide("C:\\name with spaces.txt"), wide("C:\\\u{e9}\u{4e2d}.png")];
    let bytes = dropfiles_buffer(&paths);
    assert_eq!(parse_dropfiles(&bytes), Some(paths));
}

#[test]
fn malformed_dropfiles_blocks_are_rejected() {
    let paths = vec![vec![0x41u16]];
    let good = dropfiles_buffer(&paths);
    // too short to hold a header
    assert_eq!(parse_dropfiles(&vec![20, 0, 0, 0]), None);
    // a data offset other than the header size
    let mut wrong_offset = good.clone();
    wrong_offset[0] = 24;
    assert_eq!(parse_dropfiles(&wrong_offset), None);
    // a narrow-character payload
    let mut narrow = good.clone();
    narrow[16] = 0;
    assert_eq!(parse_dropfiles(&narrow), None);
    // an odd number of payload bytes
    let mut odd = good.clone();
    odd.push(0);
    assert_eq!(parse_dropfiles(&odd), None);
}

#[test]
fn only_the_exact_format_triple_is_supported() {
    let exact = FormatQuery {
        cf_format: CF_HDROP,
        aspect: DVASPECT_CONTENT,
        tymed: TYMED_HGLOBAL,
    };
    assert!(DataObject::is_supported_format(Some(&exact)));
    assert!(!DataObject::is_supported_format(None));
    let wrong_format = FormatQuery { cf_format: 13, ..exact };
    assert!(!DataObject::is_supported_format(Some(&wrong_format)));
    let wrong_aspect = FormatQuery { aspect: 4, ..exact };
    assert!(!DataObject::is_supported_format(Some(&wrong_aspect)));
    let wrong_medium = FormatQuery { tymed: 4, ..exact };
    assert!(!DataObject::is_supported_format(Some(&wrong_medium)));
}

#[test]
fn get_data_serves_the_handle_for_the_exact_triple_only() {
    let object = DataObject::new(0x1234);
    let exact = FormatQuery {
        cf_format: CF_HDROP,
        aspect: DVASPECT_CONTENT,
        tymed: TYMED_HGLOBAL,
    };
    assert_eq!(
        object.get_data(Some(&exact)),
        Ok(StgMedium { tymed: TYMED_HGLOBAL, hglobal: 0x1234 })
    );
    let other = FormatQuery { tymed: 2, ..exact };
    assert_eq!(
        object.get_data(Some(&other)),
        Err(DataTransferError::WrongFormat)
    );
    assert_eq!(object.get_data(None), Err(DataTransferError::WrongFormat));
    assert_eq!(object.query_get_data(Some(&exact)), S_OK);
    assert_eq!(object.query_get_data(Some(&other)), DV_E_FORMATETC);
}

#[test]
fn optional_operations_are_uniformly_rejected() {
    let object = DataObject::new(1);
    assert_eq!(
        object.get_data_here(None),
        Err(DataTransferError::WrongFormat)
    );
    assert_eq!(object.get_canonical_format_etc(), E_NOTIMPL);
    assert_eq!(object.set_data(), Err(DataTransferError::NotImplemented));
    assert_eq!(
        object.enum_format_etc(),
        Err(DataTransferError::NotImplemented)
    );
    assert_eq!(object.d_advise(), Err(DataTransferError::AdviseNotSupported));
    assert_eq!(
        object.d_unadvise(),
        Err(DataTransferError::AdviseNotSupported)
    );
    assert_eq!(
        object.enum_d_advise(),
        Err(DataTransferError::AdviseNotSupported)
    );
}

#[test]
fn error_result_codes_are_canonical() {
    assert_eq!(DataTransferError::WrongFormat.hresult(), DV_E_FORMATETC);
    assert_eq!(DataTransferError::NotImplemented.hresult(), E_NOTIMPL);
    assert_eq!(
        DataTransferError::AdviseNotSupported.hresult(),
        OLE_E_ADVISENOTSUPPORTED
    );
    assert_eq!(DV_E_FORMATETC, 0x8004_0064);
    assert_eq!(E_NOTIMPL, 0x8000_4001);
    assert_eq!(OLE_E_ADVISENOTSUPPORTED, 0x8004_0003);
}

#[test]
fn escape_cancels_the_gesture() {
    let source = DropSource::new();
    assert_eq!(
        source.query_continue_drag(true, MK_LBUTTON),
        DragUpdate::Cancel
    );
    assert_eq!(DragUpdate::Cancel.hresult(), DRAGDROP_S_CANCEL);
}

#[test]
fn releasing_the_button_completes_the_drop() {
    let source = DropSource::new();
    assert_eq!(source.query_continue_drag(false, 0), DragUpdate::Complete);
    assert_eq!(DragUpdate::Complete.hresult(), DRAGDROP_S_DROP);
}

#[test]
fn holding_the_button_continues_the_gesture() {
    let source = DropSource::new();
    assert_eq!(
        source.query_continue_drag(false, MK_LBUTTON | 0x8),
        DragUpdate::Proceed
    );
    assert_eq!(DragUpdate::Proceed.hresult(), S_OK);
    assert_eq!(source.give_feedback(1), DRAGDROP_S_USEDEFAULTCURSORS);
}
