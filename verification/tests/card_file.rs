use serde_json::Value;
use tronk::card::Card;
use tronk::state::Tronk;
use uuid::Uuid;

fn list(items: &[String]) -> Value {
    Value::Array(items.iter().map(|s| Value::String(s.clone())).collect())
}

fn record(card: &Card) -> Value {
    let mut fields = serde_json::Map::new();
    fields.insert("id".to_string(), Value::String(Uuid::from_u128(card.id).to_string()));
    fields.insert("name".to_string(), Value::String(card.name.clone()));
    fields.insert("description".to_string(), Value::String(card.description.clone()));
    fields.insert("url".to_string(), Value::String(card.url.clone()));
    fields.insert("tags".to_string(), list(&card.tags));
    fields.insert("folders".to_string(), list(&card.folders));
    Value::Object(fields)
}

fn strings(value: &Value) -> Vec<String> {
    value.as_array().unwrap().iter().map(|s| s.as_str().unwrap().to_string()).collect()
}

fn card(record: &Value) -> Card {
    Card {
        id: Uuid::parse_str(record["id"].as_str().unwrap()).unwrap().as_u128(),
        name: record["name"].as_str().unwrap().to_string(),
        description: record["description"].as_str().unwrap().to_string(),
        url: record["url"].as_str().unwrap().to_string(),
        tags: strings(&record["tags"]),
        folders: strings(&record["folders"]),
    }
}

#[test]
fn store_written_as_records_reads_back_the_same() {
    let mut state = Tronk::new(None);
    for line in ["/add Foo #a,b @x", "/add \u{e9}t\u{e9} \"quoted\" #\\back,sl/ash", "/add third"] {
        state.set_user_input_text(line.to_string());
        state.process_input();
    }
    let mut cards = state.cards().clone();
    cards[1].description = "two\nlines".to_string();
    cards[2].url = "https://example.org/?q=1&r=2".to_string();

    let written =
        serde_json::to_string_pretty(&Value::Array(cards.iter().map(record).collect())).unwrap();
    let read: Value = serde_json::from_str(&written).unwrap();
    let reloaded: Vec<Card> = read.as_array().unwrap().iter().map(card).collect();

    assert_eq!(reloaded, cards);
    let restarted = Tronk::new(Some(reloaded));
    assert_eq!(restarted.cards(), &cards);
    assert_eq!(restarted.cards()[0].id, state.cards()[0].id);
}

#[test]
fn identifier_is_the_number_of_a_version_four_uuid() {
    let card = Card::default();
    let uuid = Uuid::from_u128(card.id);
    assert_eq!(uuid.get_version_num(), 4);
    assert_eq!(uuid.get_variant(), uuid::Variant::RFC4122);
    assert_eq!(uuid.as_u128(), card.id);
    assert_eq!(Uuid::parse_str(&uuid.to_string()).unwrap().as_u128(), card.id);
}
