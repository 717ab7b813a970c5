use daw_reaper::chunk::{clean_guid, extract_guid_from_chunk, find_block_end, fxchain_block_text, replace_fxchain_block};
use daw_reaper::media::ReaperMidi;

#[test]
fn block_end_of_nested_blocks() {
    let text = "<A\n  <B\n  >\n>\n";
    assert_eq!(find_block_end(text), Some(12));
    assert_eq!(&text[12..13], ">");
}

#[test]
fn block_end_of_unclosed_block_is_none() {
    assert_eq!(find_block_end("<A\n  <B\n  >\n"), None);
    assert_eq!(find_block_end(""), None);
}

#[test]
fn block_end_counts_bytes_of_multibyte_text() {
    let text = "<A\nNAME é\n>";
    assert_eq!(find_block_end(text), Some(11));
    assert_eq!(&text[11..], ">");
}

#[test]
fn block_end_of_indented_closer_points_at_the_bracket() {
    let text = "<A\n    >";
    assert_eq!(find_block_end(text), Some(7));
}

#[test]
fn guid_from_item_chunk() {
    let chunk = "<ITEM\nPOSITION 0\nGUID {ABC-123}  \n>";
    assert_eq!(extract_guid_from_chunk(chunk), Some("{ABC-123}".to_string()));
    assert_eq!(ReaperMidi::extract_guid_from_chunk(chunk), Some("{ABC-123}".to_string()));
}

#[test]
fn guid_missing_or_not_at_line_start() {
    assert_eq!(extract_guid_from_chunk("<ITEM\n  GUID {X}\n>"), None);
    assert_eq!(extract_guid_from_chunk("<ITEM\nIGUID {X}\n>"), None);
    assert_eq!(extract_guid_from_chunk(""), None);
}

#[test]
fn first_guid_line_wins() {
    let chunk = "GUID {FIRST}\nGUID {SECOND}";
    assert_eq!(extract_guid_from_chunk(chunk), Some("{FIRST}".to_string()));
}

#[test]
fn fxchain_block_is_cut_out_and_replaced() {
    let chunk = "<TRACK\nNAME x\n<FXCHAIN\nSHOW 0\n>\n>";
    assert_eq!(fxchain_block_text(chunk), Some("<FXCHAIN\nSHOW 0\n>".to_string()));
    assert_eq!(
        replace_fxchain_block(chunk, "<FXCHAIN\n>"),
        Some("<TRACK\nNAME x\n<FXCHAIN\n>\n>".to_string())
    );
}

#[test]
fn no_fxchain_block() {
    assert_eq!(fxchain_block_text("<TRACK\nNAME x\n>"), None);
    assert_eq!(replace_fxchain_block("<TRACK\nNAME x\n>", "<FXCHAIN\n>"), None);
}

#[test]
fn guid_cleaning_drops_braces_and_lowercases() {
    assert_eq!(clean_guid("{ABCD-EF01}"), "abcd-ef01");
    assert_eq!(clean_guid("abcd"), "abcd");
}

#[test]
fn block_end_counts_crlf_endings_byte_for_byte() {
    assert_eq!(find_block_end("<A\r\n>"), Some(4));
    let text = "<A\r\n  <B\r\n  >\r\n>\r\n";
    let end = find_block_end(text).unwrap();
    assert_eq!(&text[end..end + 1], ">");
    assert_eq!(end, 15);
}

#[test]
fn fxchain_block_with_crlf_endings() {
    let chunk = "<TRACK\r\nNAME x\r\n<FXCHAIN\r\nSHOW 0\r\n>\r\n>";
    assert_eq!(fxchain_block_text(chunk), Some("<FXCHAIN\r\nSHOW 0\r\n>".to_string()));
    assert_eq!(
        replace_fxchain_block(chunk, "<FXCHAIN\r\n>"),
        Some("<TRACK\r\nNAME x\r\n<FXCHAIN\r\n>\r\n>".to_string())
    );
}
