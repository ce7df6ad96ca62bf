use rusuper::debugger::parser_data::ParserData;

const TEST_TAG_NAME: &str = "tag";
const TEST_TAG_NAME2: &str = "tag2";
const TEST_BASE_ADDR: usize = 0x808000;
const TEST_HEX_VALUE: usize = 0x0A;

/// The addresses that the literal breakpoint arguments $808000, 50, $808000 + $0A and
/// $808000 + 50 stand for.
fn literal_numeric_results() -> Vec<usize> {
    vec![0x808000, 50, 0x80800A, 0x808032]
}

#[test]
fn test_parser_data_insert() {
    let expected_numerics = literal_numeric_results();

    let mut test_parser_data = ParserData::new();

    for expected_result in expected_numerics {
        assert!(test_parser_data.insert(expected_result).is_ok());
        test_parser_data = ParserData::new();
    }
}

#[test]
fn test_parser_data_get() {
    let expected_numerics = literal_numeric_results();
    let mut test_parser_data = ParserData::new();

    for expected_result in expected_numerics {
        test_parser_data.addresses.push(expected_result);

        assert_eq!(test_parser_data.get(expected_result).unwrap(), expected_result);

        test_parser_data = ParserData::new();
    }
}

#[test]
fn test_parser_data_delete() {
    let expected_numerics = literal_numeric_results();
    let mut test_parser_data = ParserData::new();

    for expected_result in expected_numerics {
        test_parser_data.addresses.push(expected_result);
        assert_eq!(test_parser_data.delete(expected_result).unwrap(), expected_result);
        assert!(!test_parser_data.addresses.contains(&expected_result));
    }
}

#[test]
fn test_parser_data_tag_insert() {
    let mut test_parser_data = ParserData::new();

    assert!(test_parser_data.insert_tag(TEST_TAG_NAME, TEST_BASE_ADDR).is_none());

    assert_eq!(*test_parser_data.tag_db.get(TEST_TAG_NAME).unwrap(), TEST_BASE_ADDR);

    assert_eq!(
        test_parser_data.insert_tag(TEST_TAG_NAME, TEST_BASE_ADDR + TEST_HEX_VALUE),
        Some(TEST_BASE_ADDR + TEST_HEX_VALUE)
    );

    assert_eq!(
        *test_parser_data.tag_db.get(TEST_TAG_NAME).unwrap(),
        TEST_BASE_ADDR + TEST_HEX_VALUE
    );
}

#[test]
fn test_parser_data_tag_get() {
    let mut test_parser_data = ParserData::new();

    test_parser_data.tag_db.insert(String::from(TEST_TAG_NAME), TEST_BASE_ADDR);

    assert_eq!(*(test_parser_data.get_tag(TEST_TAG_NAME).unwrap()), TEST_BASE_ADDR);

    test_parser_data
        .tag_db
        .insert(String::from(TEST_TAG_NAME), TEST_BASE_ADDR + TEST_HEX_VALUE);

    assert_eq!(
        *(test_parser_data.get_tag(TEST_TAG_NAME).unwrap()),
        TEST_BASE_ADDR + TEST_HEX_VALUE
    );
}

#[test]
fn test_parser_data_tag_delete() {
    let mut test_parser_data = ParserData::new();

    test_parser_data.tag_db.insert(String::from(TEST_TAG_NAME), TEST_BASE_ADDR);

    assert_eq!(test_parser_data.delete_tag(TEST_TAG_NAME).unwrap().1, TEST_BASE_ADDR);

    assert_eq!(test_parser_data.tag_db.get(TEST_TAG_NAME), None);
}

#[test]
fn parser_data_insert_twice_names_the_address() {
    let mut data = ParserData::new();
    assert!(data.insert(TEST_BASE_ADDR).is_ok());
    let err = data.insert(TEST_BASE_ADDR).unwrap_err();
    assert_eq!(err.message(), "A breakpoint was already set at 0x808000");
    assert_eq!(data.addresses, vec![TEST_BASE_ADDR]);

    let mut data = ParserData::new();
    assert!(data.insert_tag(TEST_TAG_NAME2, TEST_HEX_VALUE).is_none());
    let err = data.insert(TEST_HEX_VALUE).unwrap_err();
    assert_eq!(err.message(), "Breakpoint tag2 already exists at 0x00000A");
}

#[test]
fn parser_data_tag_update_moves_the_address() {
    let mut data = ParserData::new();
    data.insert_tag(TEST_TAG_NAME, TEST_BASE_ADDR);
    data.insert_tag(TEST_TAG_NAME, TEST_HEX_VALUE);
    assert_eq!(data.addresses, vec![TEST_HEX_VALUE]);
    assert_eq!(data.get_tag_name(TEST_HEX_VALUE), Some(TEST_TAG_NAME));
    assert_eq!(data.get_tag_name(TEST_BASE_ADDR), None);
    assert_eq!(data.delete_tag(TEST_TAG_NAME), Some((String::from(TEST_TAG_NAME), TEST_HEX_VALUE)));
    assert!(data.addresses.is_empty());
    assert_eq!(data.delete_tag(TEST_TAG_NAME), None);
}

#[test]
fn parser_data_delete_absent_is_none() {
    let mut data = ParserData::new();
    data.addresses.push(1);
    assert_eq!(data.delete(2), None);
    assert_eq!(data.addresses, vec![1]);
    assert_eq!(data.get(2), None);
}

#[test]
fn parser_data_delete_removes_every_copy() {
    let mut data = ParserData::new();
    data.addresses = vec![5, 5, 1];
    assert_eq!(data.delete(5), Some(5));
    assert_eq!(data.addresses, vec![1]);

    let mut data = ParserData::new();
    assert!(data.insert(TEST_BASE_ADDR).is_ok());
    data.insert_tag(TEST_TAG_NAME, TEST_BASE_ADDR);
    assert_eq!(data.delete(TEST_BASE_ADDR), Some(TEST_BASE_ADDR));
    assert_eq!(data.get(TEST_BASE_ADDR), None);
}

#[test]
fn parser_data_table_text() {
    let mut data = ParserData::new();
    data.insert_tag(TEST_TAG_NAME, TEST_BASE_ADDR);
    data.insert(0x12).unwrap();
    assert_eq!(
        data.table_text(),
        "\n  Address  | Tag Name  \n-----------------------\n  0x808000 | tag\n  0x000012 |\n  \n-----------------------\n"
    );
}
