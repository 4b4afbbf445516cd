use policy_reasoner_client_backend::conv::{
    join_lines, join_phrases, CodeFormat, ConvQuery, ConvRefusal, Conversion,
};

fn lines(items: &[&str]) -> Vec<String> {
    items.iter().map(|item| item.to_string()).collect()
}

#[test]
fn same_format_is_refused() {
    for format in [CodeFormat::EFlintJson, CodeFormat::EFlint, CodeFormat::WIR, CodeFormat::BraneScript] {
        assert_eq!(ConvQuery { from: format, to: format }.conversion(), Err(ConvRefusal::SameFormat));
    }
}

#[test]
fn supported_conversions_are_chosen() {
    assert_eq!(
        ConvQuery { from: CodeFormat::EFlint, to: CodeFormat::EFlintJson }.conversion(),
        Ok(Conversion::EFlintToJson)
    );
    assert_eq!(
        ConvQuery { from: CodeFormat::EFlintJson, to: CodeFormat::EFlint }.conversion(),
        Ok(Conversion::JsonToEFlint)
    );
    assert_eq!(
        ConvQuery { from: CodeFormat::BraneScript, to: CodeFormat::WIR }.conversion(),
        Ok(Conversion::BraneScriptToWir)
    );
}

#[test]
fn other_conversions_are_refused() {
    for (from, to) in [
        (CodeFormat::WIR, CodeFormat::BraneScript),
        (CodeFormat::EFlint, CodeFormat::WIR),
        (CodeFormat::EFlint, CodeFormat::BraneScript),
        (CodeFormat::EFlintJson, CodeFormat::WIR),
        (CodeFormat::EFlintJson, CodeFormat::BraneScript),
        (CodeFormat::WIR, CodeFormat::EFlint),
        (CodeFormat::WIR, CodeFormat::EFlintJson),
        (CodeFormat::BraneScript, CodeFormat::EFlint),
        (CodeFormat::BraneScript, CodeFormat::EFlintJson),
    ] {
        assert_eq!(ConvQuery { from, to }.conversion(), Err(ConvRefusal::Unsupported));
    }
}

#[test]
fn refusals_are_client_errors_with_a_reason() {
    assert_eq!(ConvRefusal::SameFormat.status(), 400);
    assert_eq!(ConvRefusal::Unsupported.status(), 400);
    assert_eq!(ConvRefusal::SameFormat.message(), "From and into can't be the same format");
    assert_eq!(ConvRefusal::Unsupported.message(), "Invalid conversion");
}

#[test]
fn lines_are_joined_with_line_feeds() {
    assert_eq!(join_lines(&lines(&[])), "");
    assert_eq!(join_lines(&lines(&["one"])), "one");
    assert_eq!(join_lines(&lines(&["one", "two", "three"])), "one\ntwo\nthree");
    assert_eq!(join_lines(&lines(&["", ""])), "\n");
    assert_eq!(join_lines(&lines(&[" a ", "", "b\n"])), " a \n\nb\n");
}

#[test]
fn phrases_are_joined_and_trimmed() {
    assert_eq!(join_phrases(&lines(&["Fact person.", "+person(Amy)."])), "Fact person.\n+person(Amy).");
    assert_eq!(join_phrases(&lines(&["  Fact person.", "", "?person(Amy). \t", ""])), "Fact person.\n\n?person(Amy).");
    assert_eq!(join_phrases(&lines(&[])), "");
    assert_eq!(join_phrases(&lines(&[" ", "\n"])), "");
}
