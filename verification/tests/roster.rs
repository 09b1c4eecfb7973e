use rcli::number::parse_kit_number;
use rcli::player::{player_node, players_from, players_from_records, roster_node};
use rcli::{
    convert, parse_document, read_csv, write_json, CliError, CsvFault, Entry, Format, Node,
    Player,
};

const JUVENTUS: &str = "\
Name,Position,DOB,Nationality,Kit Number
Wojciech Szczesny,Goalkeeper,\"Apr 18, 1990 (29)\",Poland,1
Mattia Perin,Goalkeeper,\"Nov 10, 1992 (26)\",Italy,37
Gianluigi Buffon,Goalkeeper,\"Jan 28, 1978 (41)\",Italy,77
Carlo Pinsoglio,Goalkeeper,\"Mar 16, 1990 (29)\",Italy,31
Matthijs de Ligt,Centre-Back,\"Aug 12, 1999 (20)\",Netherlands,4
Leonardo Bonucci,Centre-Back,\"May 1, 1987 (32)\",Italy,19
Daniele Rugani,Centre-Back,\"Jul 29, 1994 (25)\",Italy,24
Merih Demiral,Centre-Back,\"Mar 5, 1998 (21)\",Turkey,28
Giorgio Chiellini,Centre-Back,\"Aug 14, 1984 (35)\",Italy,3
Alex Sandro,Left-Back,\"Jan 26, 1991 (28)\",Brazil,12
Danilo,Right-Back,\"Jul 15, 1991 (28)\",Brazil,13
Mattia De Sciglio,Right-Back,\"Oct 20, 1992 (26)\",Italy,2
Emre Can,Defensive Midfield,\"Jan 12, 1994 (25)\",Germany,23
Miralem Pjanic,Central Midfield,\"Apr 2, 1990 (29)\",Bosnia-Herzegovina,5
Aaron Ramsey,Central Midfield,\"Dec 26, 1990 (28)\",Wales,8
Adrien Rabiot,Central Midfield,\"Apr 3, 1995 (24)\",France,25
Rodrigo Bentancur,Central Midfield,\"Jun 25, 1997 (22)\",Uruguay,30
Blaise Matuidi,Central Midfield,\"Apr 9, 1987 (32)\",France,14
Sami Khedira,Central Midfield,\"Apr 4, 1987 (32)\",Germany,6
Cristiano Ronaldo,Left Winger,\"Feb 5, 1985 (34)\",Portugal,7
Marko Pjaca,Left Winger,\"May 6, 1995 (24)\",Croatia,15
Federico Bernardeschi,Right Winger,\"Feb 16, 1994 (25)\",Italy,33
Douglas Costa,Right Winger,\"Sep 14, 1990 (29)\",Brazil,11
Juan Cuadrado,Right Winger,\"May 26, 1988 (31)\",Colombia,16
Paulo Dybala,Second Striker,\"Nov 15, 1993 (25)\",Argentina,10
Gonzalo Higuaín,Centre-Forward,\"Dec 10, 1987 (31)\",Argentina,21
Mario Mandzukic,Centre-Forward,\"May 21, 1986 (33)\",Croatia,17
";

/// The bytes of the file that a path names.
fn asset(path: &str) -> &'static [u8] {
    match path {
        "./assets/juventus.csv" => JUVENTUS.as_bytes(),
        _ => panic!("no such asset: {}", path),
    }
}

fn player(name: &str, position: &str, dob: &str, nationality: &str, kit_number: u8) -> Player {
    Player {
        name: name.to_string(),
        position: position.to_string(),
        dob: dob.to_string(),
        nationality: nationality.to_string(),
        kit_number,
    }
}

#[test]
fn test_read_csv() {
    let players = read_csv(asset("./assets/juventus.csv")).unwrap();
    assert_eq!(players.len(), 27);
}

#[test]
fn read_csv_reads_every_field() {
    let players = read_csv(asset("./assets/juventus.csv")).unwrap();
    assert_eq!(players[0].name, "Wojciech Szczesny");
    assert_eq!(players[0].position, "Goalkeeper");
    assert_eq!(players[0].dob, "Apr 18, 1990 (29)");
    assert_eq!(players[0].nationality, "Poland");
    assert_eq!(players[0].kit_number, 1);
    assert_eq!(players[25].name, "Gonzalo Higuaín");
    assert_eq!(players[26].name, "Mario Mandzukic");
    assert_eq!(players[26].kit_number, 17);
}

#[test]
fn read_csv_finds_columns_by_name() {
    let input = "Kit Number,Extra,Nationality,DOB,Position,Name\n0x1f,?,Italy,1990,Goalkeeper,Carlo\n";
    let players = read_csv(input.as_bytes()).unwrap();
    assert_eq!(players.len(), 1);
    assert_eq!(players[0].name, "Carlo");
    assert_eq!(players[0].position, "Goalkeeper");
    assert_eq!(players[0].dob, "1990");
    assert_eq!(players[0].nationality, "Italy");
    assert_eq!(players[0].kit_number, 31);
}

#[test]
fn read_csv_of_nothing_is_empty() {
    assert_eq!(read_csv(b"").unwrap().len(), 0);
    assert_eq!(read_csv(b"Name,Position\n").unwrap().len(), 0);
}

#[test]
fn read_csv_rejects_a_missing_column() {
    let out = read_csv(b"Name,Position,DOB,Nationality\nA,B,C,D\n");
    assert_eq!(out.unwrap_err(), CliError::CsvRead(CsvFault::Deserialize));
}

#[test]
fn read_csv_rejects_a_repeated_column() {
    let out = read_csv(b"Name,Name,Position,DOB,Nationality,Kit Number\nA,A,B,C,D,1\n");
    assert_eq!(out.unwrap_err(), CliError::CsvRead(CsvFault::Deserialize));
}

#[test]
fn read_csv_rejects_a_bad_kit_number() {
    let head = "Name,Position,DOB,Nationality,Kit Number\n";
    for kit in ["256", "-1", "", "x", "1 ", " 1", "0x100", "0x", "+", "1.0", "٣"] {
        let input = format!("{}A,B,C,D,{}\n", head, kit);
        let out = read_csv(input.as_bytes());
        assert_eq!(out.unwrap_err(), CliError::CsvRead(CsvFault::Deserialize));
    }
}

#[test]
fn read_csv_accepts_the_forms_of_a_number() {
    let head = "Name,Position,DOB,Nationality,Kit Number\n";
    for (kit, value) in [("0", 0u8), ("255", 255), ("+7", 7), ("007", 7), ("0xff", 255), ("0xFF", 255), ("0x+a", 10)] {
        let input = format!("{}A,B,C,D,{}\n", head, kit);
        let players = read_csv(input.as_bytes()).unwrap();
        assert_eq!(players[0].kit_number, value);
    }
}

#[test]
fn read_csv_rejects_malformed_input() {
    let out = read_csv(b"Name,Position\nA\n");
    assert_eq!(out.unwrap_err(), CliError::CsvRead(CsvFault::Malformed));
}

#[test]
fn write_json_writes_the_roster() {
    let players = vec![player("Danilo", "Right-Back", "Jul 15, 1991 (28)", "Brazil", 13)];
    let text = write_json(players).unwrap();
    assert_eq!(
        text,
        "[\n  {\n    \"Name\": \"Danilo\",\n    \"Position\": \"Right-Back\",\n    \"DOB\": \"Jul 15, 1991 (28)\",\n    \"Nationality\": \"Brazil\",\n    \"Kit Number\": 13\n  }\n]"
    );
}

#[test]
fn write_json_of_no_player_is_an_empty_array() {
    assert_eq!(write_json(Vec::new()).unwrap(), "[]");
}

#[test]
fn roster_converts_to_twenty_seven_objects() {
    let text = convert(asset("./assets/juventus.csv"), Format::Json).unwrap();
    let output: serde_json::Value = serde_json::from_str(&text).unwrap();
    let items = output.as_array().unwrap();
    assert_eq!(items.len(), 27);
    assert_eq!(output[0]["Name"], "Wojciech Szczesny");
    assert_eq!(output[26]["Kit Number"], "17");
    for item in items {
        let keys: Vec<&str> = item.as_object().unwrap().keys().map(|k| k.as_str()).collect();
        assert_eq!(keys, vec!["Name", "Position", "DOB", "Nationality", "Kit Number"]);
        assert!(item.as_object().unwrap().values().all(|v| v.is_string()));
    }
}

#[test]
fn roster_document_keeps_row_order() {
    let doc = parse_document(asset("./assets/juventus.csv")).unwrap();
    let items = match doc {
        Node::Array(items) => items,
        other => panic!("not an array: {:?}", other),
    };
    let names: Vec<String> = items
        .iter()
        .map(|item| match item {
            Node::Object(entries) => match &entries[0].value {
                Node::String(name) => name.clone(),
                other => panic!("not a string: {:?}", other),
            },
            other => panic!("not an object: {:?}", other),
        })
        .collect();
    let expected: Vec<String> = JUVENTUS
        .lines()
        .skip(1)
        .map(|line| line.split(',').next().unwrap().to_string())
        .collect();
    assert_eq!(names, expected);
}

fn records(rows: &[&[&str]]) -> Vec<Vec<String>> {
    rows.iter().map(|row| row.iter().map(|cell| cell.to_string()).collect()).collect()
}

const HEADERS: [&str; 5] = ["Name", "Position", "DOB", "Nationality", "Kit Number"];

#[test]
fn players_from_records_reads_the_rows_in_order() {
    let players = players_from_records(&records(&[
        &HEADERS,
        &["A", "Goalkeeper", "1990", "Italy", "1"],
        &["B", "Left-Back", "1991", "Brazil", "12"],
    ]))
    .unwrap();
    assert_eq!(players.len(), 2);
    assert_eq!(players[0].name, "A");
    assert_eq!(players[1].name, "B");
    assert_eq!(players[1].position, "Left-Back");
    assert_eq!(players[1].dob, "1991");
    assert_eq!(players[1].nationality, "Brazil");
    assert_eq!(players[1].kit_number, 12);
}

#[test]
fn players_from_records_passes_over_cells_beyond_the_headers() {
    let players =
        players_from_records(&records(&[&HEADERS, &["A", "B", "C", "D", "5", "more"]])).unwrap();
    assert_eq!(players.len(), 1);
    assert_eq!(players[0].kit_number, 5);
}

#[test]
fn players_from_records_needs_a_cell_under_every_header() {
    let out = players_from_records(&records(&[
        &["Name", "Position", "DOB", "Nationality", "Kit Number", "Club"],
        &["A", "B", "C", "D", "5"],
    ]));
    assert_eq!(out.unwrap_err(), CliError::CsvRead(CsvFault::Deserialize));
}

#[test]
fn players_from_records_stops_at_the_first_bad_row() {
    let out = players_from_records(&records(&[
        &HEADERS,
        &["A", "B", "C", "D", "5"],
        &["A", "B", "C", "D", "five"],
        &["A", "B", "C", "D", "6"],
    ]));
    assert_eq!(out.unwrap_err(), CliError::CsvRead(CsvFault::Deserialize));
}

#[test]
fn players_from_names_a_reader_error_as_syntax() {
    let failed: Result<Vec<Vec<String>>, ()> = Err(());
    assert_eq!(players_from(failed).unwrap_err(), CliError::CsvRead(CsvFault::Malformed));
    let read: Result<Vec<Vec<String>>, ()> = Ok(records(&[&HEADERS, &["A", "B", "C", "D", "5"]]));
    assert_eq!(players_from(read).unwrap().len(), 1);
}

#[test]
fn kit_numbers_are_decimal_or_hexadecimal() {
    assert_eq!(parse_kit_number("0"), Some(0));
    assert_eq!(parse_kit_number("77"), Some(77));
    assert_eq!(parse_kit_number("255"), Some(255));
    assert_eq!(parse_kit_number("+255"), Some(255));
    assert_eq!(parse_kit_number("000000000000000000000000255"), Some(255));
    assert_eq!(parse_kit_number("0x0"), Some(0));
    assert_eq!(parse_kit_number("0x1F"), Some(31));
    assert_eq!(parse_kit_number("0xfF"), Some(255));
    assert_eq!(parse_kit_number("0x+7"), Some(7));
    assert_eq!(parse_kit_number("0x00000000ff"), Some(255));
}

#[test]
fn kit_numbers_fit_in_eight_bits_and_hold_digits_only() {
    for text in [
        "", "+", "-", "-0", "256", "1000", "99999999999999999999", "0x100", "0x", "0x+", "0X1f",
        "1f", "ff", " 7", "7 ", "7\n", "1_0", "1.5", "++7", "+-7", "0x-1", "0xg", "٧", "7é",
    ] {
        assert_eq!(parse_kit_number(text), None, "{:?}", text);
    }
}

#[test]
fn kit_numbers_agree_with_the_standard_library() {
    for n in 0u32..=300 {
        let decimal = n.to_string();
        assert_eq!(parse_kit_number(&decimal), decimal.parse::<u8>().ok());
        let hex = format!("0x{:x}", n);
        assert_eq!(parse_kit_number(&hex), u8::from_str_radix(&hex[2..], 16).ok());
    }
}

#[test]
fn player_node_holds_the_five_fields_in_order() {
    let node = player_node(&player("Danilo", "Right-Back", "Jul 15, 1991 (28)", "Brazil", 13));
    let entries = match node {
        Node::Object(entries) => entries,
        other => panic!("not an object: {:?}", other),
    };
    let keys: Vec<&str> = entries.iter().map(|Entry { key, .. }| key.as_str()).collect();
    assert_eq!(keys, HEADERS.to_vec());
    assert!(matches!(&entries[0].value, Node::String(s) if s == "Danilo"));
    assert!(matches!(&entries[1].value, Node::String(s) if s == "Right-Back"));
    assert!(matches!(&entries[2].value, Node::String(s) if s == "Jul 15, 1991 (28)"));
    assert!(matches!(&entries[3].value, Node::String(s) if s == "Brazil"));
    assert!(matches!(&entries[4].value, Node::Number(13)));
}

#[test]
fn roster_node_has_one_object_for_each_player() {
    let players = read_csv(asset("./assets/juventus.csv")).unwrap();
    match roster_node(&players) {
        Node::Array(items) => assert_eq!(items.len(), 27),
        other => panic!("not an array: {:?}", other),
    }
    let text = write_json(players).unwrap();
    let output: serde_json::Value = serde_json::from_str(&text).unwrap();
    assert_eq!(output.as_array().unwrap().len(), 27);
    assert_eq!(output[2]["Name"], "Gianluigi Buffon");
    assert_eq!(output[2]["Kit Number"], 77);
}
