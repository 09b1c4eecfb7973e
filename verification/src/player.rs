//! Players of a roster: reading them from CSV records by column name, and
//! writing them out as a JSON document.

use vstd::prelude::*;
use crate::document::{entries_view, items_view, Entry, Node, Tree};
use crate::error::{CliError, CsvFault};
use crate::format::Format;
use crate::number::{kit_number_of, parse_kit_number};
use crate::reader::{csv_records, read_records, read_view};
use crate::render::{render_mappings, rendering, text_of};
use crate::text::str_eq;

verus! {

/// One player of a roster.
#[derive(Debug, PartialEq, Eq)]
pub struct Player {
    pub name: String,
    pub position: String,
    pub dob: String,
    pub nationality: String,
    pub kit_number: u8,
}

/// The mathematical value of a `Player`.
pub struct PlayerView {
    pub name: Seq<char>,
    pub position: Seq<char>,
    pub dob: Seq<char>,
    pub nationality: Seq<char>,
    pub kit_number: u8,
}

impl View for Player {
    type V = PlayerView;

    open spec fn view(&self) -> PlayerView {
        PlayerView {
            name: self.name@,
            position: self.position@,
            dob: self.dob@,
            nationality: self.nationality@,
            kit_number: self.kit_number,
        }
    }
}

/// The values of a vector of players, in its order.
pub open spec fn players_view(players: Vec<Player>) -> Seq<PlayerView> {
    Seq::new(players.len() as nat, |i: int| players[i]@)
}

/// The values of the players that were read, or the error in their place.
pub open spec fn roster_of(out: Result<Vec<Player>, CliError>) -> Result<
    Seq<PlayerView>,
    CliError,
> {
    match out {
        Ok(players) => Ok(players_view(players)),
        Err(e) => Err(e),
    }
}

/// Exactly one column has the given name.
pub open spec fn heads_one(headers: Seq<Seq<char>>, name: Seq<char>) -> bool {
    exists|i: int|
        0 <= i < headers.len() && #[trigger] headers[i] == name && forall|j: int|
            0 <= j < headers.len() && j != i ==> #[trigger] headers[j] != name
}

/// The place of a column with the given name, where there is one.
pub open spec fn column_of(headers: Seq<Seq<char>>, name: Seq<char>) -> int {
    choose|i: int| 0 <= i < headers.len() && #[trigger] headers[i] == name
}

/// Each of the five columns of a player occurs exactly once.
pub open spec fn has_columns(headers: Seq<Seq<char>>) -> bool {
    &&& heads_one(headers, "Name"@)
    &&& heads_one(headers, "Position"@)
    &&& heads_one(headers, "DOB"@)
    &&& heads_one(headers, "Nationality"@)
    &&& heads_one(headers, "Kit Number"@)
}

/// The player that a record holds under the given headers. Each of the five
/// columns must occur exactly once, the record must have a cell under every
/// header, and the cell under `Kit Number` must hold a kit number. Other
/// columns are passed over, and the four texts are taken as they stand.
pub open spec fn player_of(headers: Seq<Seq<char>>, cells: Seq<Seq<char>>) -> Option<PlayerView> {
    if has_columns(headers) && headers.len() <= cells.len() && kit_number_of(
        cells[column_of(headers, "Kit Number"@)],
    ) is Some {
        Some(
            PlayerView {
                name: cells[column_of(headers, "Name"@)],
                position: cells[column_of(headers, "Position"@)],
                dob: cells[column_of(headers, "DOB"@)],
                nationality: cells[column_of(headers, "Nationality"@)],
                kit_number: kit_number_of(cells[column_of(headers, "Kit Number"@)])->0,
            },
        )
    } else {
        None
    }
}

/// Some record after the first holds no player.
pub open spec fn has_bad_record(records: Seq<Seq<Seq<char>>>) -> bool {
    exists|i: int| 1 <= i < records.len() && player_of(records[0], #[trigger] records[i]) is None
}

/// The players that a sequence of records holds: one for each record after
/// the first, which is the header row. Without any record there is no
/// player; one record that holds no player spoils the whole.
pub open spec fn players_of(records: Seq<Seq<Seq<char>>>) -> Result<Seq<PlayerView>, CliError> {
    if records.len() == 0 {
        Ok(Seq::empty())
    } else if has_bad_record(records) {
        Err(CliError::CsvRead(CsvFault::Deserialize))
    } else {
        Ok(
            Seq::new(
                (records.len() - 1) as nat,
                |i: int| player_of(records[0], records[i + 1])->0,
            ),
        )
    }
}

/// The players in what was read from CSV input.
pub open spec fn read_players(read: Option<Seq<Seq<Seq<char>>>>) -> Result<
    Seq<PlayerView>,
    CliError,
> {
    match read {
        None => Err(CliError::CsvRead(CsvFault::Malformed)),
        Some(records) => players_of(records),
    }
}

/// The players that CSV input holds.
pub open spec fn input_players(input: Seq<u8>) -> Result<Seq<PlayerView>, CliError> {
    read_players(csv_records(input))
}

/// The object of a player: its five fields under their column names, the
/// kit number as a number.
pub open spec fn player_object(player: PlayerView) -> Tree {
    Tree::Object(
        seq![
            ("Name"@, Tree::String(player.name)),
            ("Position"@, Tree::String(player.position)),
            ("DOB"@, Tree::String(player.dob)),
            ("Nationality"@, Tree::String(player.nationality)),
            ("Kit Number"@, Tree::Number(player.kit_number as int)),
        ],
    )
}

/// The document of a roster: the array of its players' objects.
pub open spec fn roster_document(players: Seq<PlayerView>) -> Tree {
    Tree::Array(Seq::new(players.len(), |i: int| player_object(players[i])))
}

/// The five column names differ from each other.
pub proof fn lemma_column_names_differ()
    ensures
        "Name"@ != "Position"@,
        "Name"@ != "DOB"@,
        "Name"@ != "Nationality"@,
        "Name"@ != "Kit Number"@,
        "Position"@ != "DOB"@,
        "Position"@ != "Nationality"@,
        "Position"@ != "Kit Number"@,
        "DOB"@ != "Nationality"@,
        "DOB"@ != "Kit Number"@,
        "Nationality"@ != "Kit Number"@,
{
    reveal_strlit("Name");
    reveal_strlit("Position");
    reveal_strlit("DOB");
    reveal_strlit("Nationality");
    reveal_strlit("Kit Number");
    assert("Name"@.len() == 4);
    assert("Position"@.len() == 8);
    assert("DOB"@.len() == 3);
    assert("Nationality"@.len() == 11);
    assert("Kit Number"@.len() == 10);
}

/// In the document of a roster no object has a key twice.
pub proof fn lemma_roster_document_wf(players: Seq<PlayerView>)
    ensures
        roster_document(players).wf(),
{
    lemma_column_names_differ();
    let items = roster_document(players)->Array_0;
    assert forall|i: int| 0 <= i < items.len() implies (#[trigger] items[i]).wf() by {
        let entries = player_object(players[i])->Object_0;
        assert forall|j: int| 0 <= j < entries.len() implies (#[trigger] entries[j]).1.wf() by {}
    }
}

/// Finds the one column with the given name.
fn find_column(headers: &Vec<String>, name: &str) -> (out: Option<usize>)
    ensures
        match out {
            Some(i) => heads_one(headers.deep_view(), name@) && i == column_of(
                headers.deep_view(),
                name@,
            ) && i < headers.len(),
            None => !heads_one(headers.deep_view(), name@),
        },
{
    let ghost names = headers.deep_view();
    let mut found: Option<usize> = None;
    let mut i: usize = 0;
    while i < headers.len()
        invariant
            i <= headers.len(),
            names == headers.deep_view(),
            match found {
                Some(p) => p < i && names[p as int] == name@ && forall|j: int|
                    0 <= j < i && j != p ==> #[trigger] names[j] != name@,
                None => forall|j: int| 0 <= j < i ==> #[trigger] names[j] != name@,
            },
        decreases headers.len() - i,
    {
        if str_eq(headers[i].as_str(), name) {
            match found {
                Some(p) => {
                    assert(names[p as int] == name@ && names[i as int] == name@);
                    return None;
                },
                None => {
                    found = Some(i);
                },
            }
        }
        i += 1;
    }
    proof {
        if let Some(p) = found {
            assert(names[p as int] == name@);
            assert(column_of(names, name@) == p);
        }
    }
    found
}

/// The width of a header row and the places of the five columns of a
/// player in it.
struct Columns {
    width: usize,
    name: usize,
    position: usize,
    dob: usize,
    nationality: usize,
    kit_number: usize,
}

impl Columns {
    /// The places are those of the five columns under the given headers.
    spec fn locates(&self, headers: Seq<Seq<char>>) -> bool {
        &&& has_columns(headers)
        &&& self.width == headers.len()
        &&& self.name == column_of(headers, "Name"@) && self.name < headers.len()
        &&& self.position == column_of(headers, "Position"@) && self.position < headers.len()
        &&& self.dob == column_of(headers, "DOB"@) && self.dob < headers.len()
        &&& self.nationality == column_of(headers, "Nationality"@) && self.nationality
            < headers.len()
        &&& self.kit_number == column_of(headers, "Kit Number"@) && self.kit_number
            < headers.len()
    }
}

/// Finds the five columns of a player.
fn locate(headers: &Vec<String>) -> (out: Option<Columns>)
    ensures
        match out {
            Some(columns) => columns.locates(headers.deep_view()),
            None => !has_columns(headers.deep_view()),
        },
{
    let name = match find_column(headers, "Name") {
        Some(i) => i,
        None => {
            return None;
        },
    };
    let position = match find_column(headers, "Position") {
        Some(i) => i,
        None => {
            return None;
        },
    };
    let dob = match find_column(headers, "DOB") {
        Some(i) => i,
        None => {
            return None;
        },
    };
    let nationality = match find_column(headers, "Nationality") {
        Some(i) => i,
        None => {
            return None;
        },
    };
    let kit_number = match find_column(headers, "Kit Number") {
        Some(i) => i,
        None => {
            return None;
        },
    };
    Some(Columns { width: headers.len(), name, position, dob, nationality, kit_number })
}

/// Reads the player that a record holds.
fn decode(columns: &Columns, cells: &Vec<String>, headers: Ghost<Seq<Seq<char>>>) -> (out: Option<
    Player,
>)
    requires
        columns.locates(headers@),
    ensures
        match out {
            Some(player) => player_of(headers@, cells.deep_view()) == Some(player@),
            None => player_of(headers@, cells.deep_view()) is None,
        },
{
    if cells.len() < columns.width {
        return None;
    }
    let kit_number = match parse_kit_number(cells[columns.kit_number].as_str()) {
        Some(n) => n,
        None => {
            return None;
        },
    };
    Some(
        Player {
            name: cells[columns.name].clone(),
            position: cells[columns.position].clone(),
            dob: cells[columns.dob].clone(),
            nationality: cells[columns.nationality].clone(),
            kit_number,
        },
    )
}

/// Reads the players that a sequence of records holds: one for each record
/// after the first, which is the header row.
pub fn players_from_records(records: &Vec<Vec<String>>) -> (out: Result<Vec<Player>, CliError>)
    ensures
        roster_of(out) == players_of(records.deep_view()),
{
    let ghost all = records.deep_view();
    let mut players: Vec<Player> = Vec::new();
    if records.len() <= 1 {
        assert(players_view(players) =~= players_of(all)->Ok_0);
        return Ok(players);
    }
    let columns = match locate(&records[0]) {
        Some(columns) => columns,
        None => {
            assert(player_of(all[0], all[1]) is None);
            return Err(CliError::CsvRead(CsvFault::Deserialize));
        },
    };
    let mut i: usize = 1;
    while i < records.len()
        invariant
            1 <= i <= records.len(),
            all == records.deep_view(),
            columns.locates(all[0]),
            players.len() == i - 1,
            forall|j: int|
                1 <= j < i ==> player_of(all[0], #[trigger] all[j]) == Some(players[j - 1]@),
        decreases records.len() - i,
    {
        assert(all[i as int] == records[i as int].deep_view());
        match decode(&columns, &records[i], Ghost(all[0])) {
            Some(player) => {
                players.push(player);
            },
            None => {
                return Err(CliError::CsvRead(CsvFault::Deserialize));
            },
        }
        i += 1;
    }
    proof {
        assert(!has_bad_record(all));
        assert(players_view(players) =~= players_of(all)->Ok_0);
    }
    Ok(players)
}

/// Reads the players in what a reader returned. A reader's error, of
/// whatever kind, counts as malformed input.
pub fn players_from<E>(read: Result<Vec<Vec<String>>, E>) -> (out: Result<Vec<Player>, CliError>)
    ensures
        roster_of(out) == read_players(read_view(read)),
{
    match read {
        Ok(records) => players_from_records(&records),
        Err(_) => Err(CliError::CsvRead(CsvFault::Malformed)),
    }
}

/// Reads the players that CSV input holds. The first row names the columns;
/// each player is read from the columns `Name`, `Position`, `DOB`,
/// `Nationality` and `Kit Number`, wherever they stand.
pub fn read_csv(input: &[u8]) -> (out: Result<Vec<Player>, CliError>)
    ensures
        roster_of(out) == input_players(input@),
{
    players_from(read_records(input))
}

/// Builds the object of a player.
pub fn player_node(player: &Player) -> (node: Node)
    ensures
        node@ == player_object(player@),
{
    let mut entries: Vec<Entry> = Vec::new();
    entries.push(Entry { key: "Name".to_owned(), value: Node::String(player.name.clone()) });
    entries.push(
        Entry { key: "Position".to_owned(), value: Node::String(player.position.clone()) },
    );
    entries.push(Entry { key: "DOB".to_owned(), value: Node::String(player.dob.clone()) });
    entries.push(
        Entry { key: "Nationality".to_owned(), value: Node::String(player.nationality.clone()) },
    );
    entries.push(
        Entry { key: "Kit Number".to_owned(), value: Node::Number(player.kit_number as i64) },
    );
    proof {
        Node::lemma_object_view(entries);
        assert(entries_view(entries) =~= player_object(player@)->Object_0);
    }
    Node::Object(entries)
}

/// Builds the document of a roster: the array of its players' objects, in
/// their order.
pub fn roster_node(players: &Vec<Player>) -> (doc: Node)
    ensures
        doc@ == roster_document(players_view(*players)),
        doc.wf(),
{
    let ghost roster = players_view(*players);
    let mut items: Vec<Node> = Vec::new();
    let mut i: usize = 0;
    while i < players.len()
        invariant
            i <= players.len(),
            roster == players_view(*players),
            items.len() == i,
            forall|j: int| 0 <= j < i ==> (#[trigger] items[j])@ == player_object(roster[j]),
        decreases players.len() - i,
    {
        let node = player_node(&players[i]);
        items.push(node);
        i += 1;
    }
    proof {
        Node::lemma_array_view(items);
        assert(items_view(items) =~= roster_document(roster)->Array_0);
        lemma_roster_document_wf(roster);
    }
    Node::Array(items)
}

/// Writes a roster out as pretty-printed JSON: an array with one object for
/// each player, in the roster's order.
pub fn write_json(players: Vec<Player>) -> (out: Result<String, CliError>)
    ensures
        text_of(out) == rendering(roster_document(players_view(players)), Format::Json),
{
    let doc = roster_node(&players);
    render_mappings(&doc, Format::Json)
}

} // verus!
