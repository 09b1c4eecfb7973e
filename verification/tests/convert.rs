use rcli::command::{DEFAULT_FORMAT, DEFAULT_OUTPUT};
use rcli::{
    convert, parse_document, process_csv, run, verify_file, CliError, Commands, CsvArgs, CsvFault,
    Entry, Format, MyCli, Node,
};

fn args(format: Format) -> CsvArgs {
    CsvArgs { input: "input.csv".to_string(), output: "output.json".to_string(), format }
}

fn entry(key: &str, value: &str) -> (String, String) {
    (key.to_string(), value.to_string())
}

/// The keys and string values of an object node.
fn strings_of(node: &Node) -> Vec<(String, String)> {
    match node {
        Node::Object(entries) => entries
            .iter()
            .map(|Entry { key, value }| match value {
                Node::String(text) => (key.clone(), text.clone()),
                other => panic!("not a string: {:?}", other),
            })
            .collect(),
        other => panic!("not an object: {:?}", other),
    }
}

/// The objects of an array node.
fn rows_of(node: &Node) -> Vec<Vec<(String, String)>> {
    match node {
        Node::Array(items) => items.iter().map(strings_of).collect(),
        other => panic!("not an array: {:?}", other),
    }
}

#[test]
fn one_row_as_json() {
    let text = convert(b"a,b\n1,2\n", Format::Json).unwrap();
    assert_eq!(text, "[\n  {\n    \"a\": \"1\",\n    \"b\": \"2\"\n  }\n]");
}

#[test]
fn one_row_as_yaml() {
    let text = convert(b"a,b\n1,2\n", Format::Yaml).unwrap();
    assert_eq!(text, "- a: '1'\n  b: '2'\n");
    let output: serde_yaml::Value = serde_yaml::from_str(&text).unwrap();
    let items = output.as_sequence().unwrap();
    assert_eq!(items.len(), 1);
    let mapping = items[0].as_mapping().unwrap();
    assert_eq!(mapping.len(), 2);
    assert_eq!(mapping.get("a").unwrap().as_str(), Some("1"));
    assert_eq!(mapping.get("b").unwrap().as_str(), Some("2"));
}

#[test]
fn quoted_comma_stays_in_the_cell() {
    let doc = parse_document(b"a,b\n\"x,y\",z\n").unwrap();
    assert_eq!(rows_of(&doc), vec![vec![entry("a", "x,y"), entry("b", "z")]]);
    let text = convert(b"a,b\n\"x,y\",z\n", Format::Json).unwrap();
    assert_eq!(text, "[\n  {\n    \"a\": \"x,y\",\n    \"b\": \"z\"\n  }\n]");
}

#[test]
fn header_only_is_an_empty_array() {
    assert_eq!(convert(b"a,b\n", Format::Json).unwrap(), "[]");
    assert_eq!(convert(b"a,b\n", Format::Yaml).unwrap(), "[]\n");
    assert_eq!(rows_of(&parse_document(b"a,b\n").unwrap()), Vec::<Vec<(String, String)>>::new());
}

#[test]
fn empty_input_has_no_headers() {
    assert_eq!(convert(b"", Format::Json).unwrap_err(), CliError::CsvRead(CsvFault::NoHeaders));
    assert_eq!(convert(b"\n\n", Format::Yaml).unwrap_err(), CliError::CsvRead(CsvFault::NoHeaders));
    assert_eq!(CliError::CsvRead(CsvFault::NoHeaders).message(), "Cannot read headers");
}

#[test]
fn ragged_row_is_fatal() {
    assert_eq!(
        convert(b"a,b\n1,2\n3\n", Format::Json).unwrap_err(),
        CliError::CsvRead(CsvFault::Malformed)
    );
    assert_eq!(
        convert(b"a,b\n1,2,3\n", Format::Json).unwrap_err(),
        CliError::CsvRead(CsvFault::Malformed)
    );
}

#[test]
fn bytes_that_are_not_utf8_are_fatal() {
    assert_eq!(
        convert(b"a,b\n\xff,2\n", Format::Json).unwrap_err(),
        CliError::CsvRead(CsvFault::Malformed)
    );
    assert_eq!(
        convert(b"a,\xfe\n1,2\n", Format::Json).unwrap_err(),
        CliError::CsvRead(CsvFault::Malformed)
    );
}

#[test]
fn repeated_header_keeps_its_first_place_and_its_last_value() {
    let doc = parse_document(b"a,b,a\n1,2,3\n").unwrap();
    assert_eq!(rows_of(&doc), vec![vec![entry("a", "3"), entry("b", "2")]]);
    let text = convert(b"a,b,a\n1,2,3\n", Format::Json).unwrap();
    assert_eq!(text, "[\n  {\n    \"a\": \"3\",\n    \"b\": \"2\"\n  }\n]");
}

#[test]
fn objects_follow_row_order_and_keys_follow_header_order() {
    let doc = parse_document(b"z,y,x\n1,2,3\n4,5,6\n7,8,9\n").unwrap();
    assert_eq!(
        rows_of(&doc),
        vec![
            vec![entry("z", "1"), entry("y", "2"), entry("x", "3")],
            vec![entry("z", "4"), entry("y", "5"), entry("x", "6")],
            vec![entry("z", "7"), entry("y", "8"), entry("x", "9")],
        ]
    );
}

#[test]
fn cells_are_never_read_as_numbers_or_booleans() {
    let doc = parse_document(b"n,t,e,s\n42,true,,null\n").unwrap();
    assert_eq!(
        rows_of(&doc),
        vec![vec![entry("n", "42"), entry("t", "true"), entry("e", ""), entry("s", "null")]]
    );
    let text = convert(b"n,t,e,s\n42,true,,null\n", Format::Json).unwrap();
    assert_eq!(
        text,
        "[\n  {\n    \"n\": \"42\",\n    \"t\": \"true\",\n    \"e\": \"\",\n    \"s\": \"null\"\n  }\n]"
    );
}

#[test]
fn cells_keep_quotes_newlines_and_blanks() {
    let input = b"Kit Number, padded \r\n\"say \"\"hi\"\"\",\"two\nlines\"\r\n";
    let doc = parse_document(input).unwrap();
    assert_eq!(
        rows_of(&doc),
        vec![vec![entry("Kit Number", "say \"hi\""), entry(" padded ", "two\nlines")]]
    );
}

#[test]
fn json_output_parses_back_to_headers_and_cells() {
    let input = b"Name,Kit Number\n\"Higua\xc3\xadn, G.\",21\n\"quote \"\" here\",9\n";
    let text = convert(input, Format::Json).unwrap();
    let output: serde_json::Value = serde_json::from_str(&text).unwrap();
    let items = output.as_array().unwrap();
    assert_eq!(items.len(), 2);
    let first = items[0].as_object().unwrap();
    let keys: Vec<&str> = first.keys().map(|k| k.as_str()).collect();
    assert_eq!(keys, vec!["Name", "Kit Number"]);
    assert_eq!(first["Name"], "Higuaín, G.");
    assert_eq!(first["Kit Number"], "21");
    assert_eq!(items[1]["Name"], "quote \" here");
    assert_eq!(items[1]["Kit Number"], "9");
}

#[test]
fn same_input_gives_the_same_bytes() {
    let input = b"a,b\n1,2\n3,4\n";
    for format in [Format::Json, Format::Yaml] {
        let first = convert(input, format).unwrap();
        let second = convert(input, format).unwrap();
        assert_eq!(first.as_bytes(), second.as_bytes());
    }
    assert_eq!(convert(b"", Format::Json), convert(b"", Format::Json));
}

#[test]
fn process_csv_goes_by_the_format_of_its_arguments() {
    let input = b"a\n1\n";
    assert_eq!(process_csv(&args(Format::Json), input).unwrap(), "[\n  {\n    \"a\": \"1\"\n  }\n]");
    assert_eq!(process_csv(&args(Format::Yaml), input).unwrap(), "- a: '1'\n");
    assert_eq!(
        process_csv(&args(Format::Json), b"").unwrap_err(),
        CliError::CsvRead(CsvFault::NoHeaders)
    );
}

#[test]
fn run_dispatches_the_csv_command() {
    let cli = MyCli::new(Commands::Csv(args(Format::Yaml)));
    assert_eq!(run(&cli, b"a,b\n1,2\n").unwrap(), "- a: '1'\n  b: '2'\n");
    let Commands::Csv(named) = cli.subcmd();
    assert_eq!(named.input, "input.csv");
    assert_eq!(named.output, "output.json");
    assert_eq!(named.format, Format::Yaml);
}

#[test]
fn missing_input_is_rejected() {
    let out = verify_file("./no/such/file.csv", false);
    assert_eq!(out.unwrap_err(), CliError::InputMissing);
    assert_eq!(CliError::InputMissing.message(), "File not found");
}

#[test]
fn existing_input_is_accepted_as_it_stands() {
    assert_eq!(verify_file("./assets/juventus.csv", true).unwrap(), "./assets/juventus.csv");
    assert_eq!(verify_file("", true).unwrap(), "");
}

#[test]
fn unknown_format_is_invalid() {
    assert_eq!(Format::parse("xml").unwrap_err(), CliError::InvalidFormat);
    assert_eq!("xml".parse::<Format>().unwrap_err(), CliError::InvalidFormat);
    assert_eq!(CliError::InvalidFormat.message(), "Invalid format");
    for token in ["", "JSON", "json ", " yaml", "yml", "jsonyaml"] {
        assert_eq!(Format::parse(token).unwrap_err(), CliError::InvalidFormat);
    }
}

#[test]
fn format_tokens_parse_and_print() {
    assert_eq!(Format::parse("json").unwrap(), Format::Json);
    assert_eq!(Format::parse("yaml").unwrap(), Format::Yaml);
    assert_eq!("json".parse::<Format>().unwrap(), Format::Json);
    assert_eq!(Format::Json.name(), "json");
    assert_eq!(Format::Yaml.name(), "yaml");
    let token: &'static str = Format::Yaml.into();
    assert_eq!(token, "yaml");
    for format in [Format::Json, Format::Yaml] {
        assert_eq!(Format::parse(format.name()).unwrap(), format);
    }
}

#[test]
fn arguments_default_to_json_in_the_assets() {
    let args = CsvArgs::with_defaults("./assets/juventus.csv".to_string());
    assert_eq!(args.input, "./assets/juventus.csv");
    assert_eq!(args.output, "./assets/juventus.json");
    assert_eq!(args.format, Format::Json);
    assert_eq!(DEFAULT_OUTPUT, "./assets/juventus.json");
    assert_eq!(DEFAULT_FORMAT, Format::Json);
}

#[test]
fn every_error_has_its_message() {
    assert_eq!(CliError::ArgParse.message(), "Invalid arguments");
    assert_eq!(CliError::CsvRead(CsvFault::Open).message(), "Cannot open input");
    assert_eq!(CliError::CsvRead(CsvFault::Malformed).message(), "Malformed CSV input");
    assert_eq!(
        CliError::CsvRead(CsvFault::RowWidth).message(),
        "Row width differs from header width"
    );
    assert_eq!(CliError::CsvRead(CsvFault::Deserialize).message(), "Cannot deserialize record");
    assert_eq!(CliError::Serialize.message(), "Cannot serialize document");
    assert_eq!(CliError::Write.message(), "Cannot write output");
}
