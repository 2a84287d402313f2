use file_matcher::selection::{select_type_tag, Selection, TypeTag};

#[test]
fn one_and_two_name_the_categories() {
    assert_eq!(
        select_type_tag("1"),
        Selection { tag: TypeTag::IotRewardShare, defaulted: false }
    );
    assert_eq!(
        select_type_tag("2"),
        Selection { tag: TypeTag::AnotherFileType, defaulted: false }
    );
}

#[test]
fn any_other_answer_falls_back_to_the_first() {
    for answer in ["", "3", "0", "11", "12", "21", " 1", "1 ", "one", "iot_reward_share", "\u{0661}"] {
        assert_eq!(
            select_type_tag(answer),
            Selection { tag: TypeTag::IotRewardShare, defaulted: true }
        );
    }
}

#[test]
fn tags_have_their_text() {
    assert_eq!(TypeTag::IotRewardShare.as_str(), "iot_reward_share");
    assert_eq!(TypeTag::AnotherFileType.as_str(), "another_file_type");
}

#[test]
fn a_selected_tag_filters_names() {
    let tag = select_type_tag("1").tag;
    assert!(file_matcher::matcher::matches(
        "iot_reward_share.1700000000000.csv",
        tag.as_str(),
        (1699999999999, 1700000000001)
    ));
    let other = select_type_tag("2").tag;
    assert!(!file_matcher::matcher::matches(
        "iot_reward_share.1700000000000.csv",
        other.as_str(),
        (1699999999999, 1700000000001)
    ));
}
