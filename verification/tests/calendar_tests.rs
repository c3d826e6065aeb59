use pickup_calendar::calendar::{extract_events, Category, ParseError, PickupEvent};
use pickup_calendar::date::Date;

#[test]
fn one_well_formed_block_yields_one_event() {
    let doc = "DTSTART;TZID=Europe/Berlin;VALUE=DATE:20240115\n\
               SUMMARY:Abfuhr gelbe Wertstofftonne/-sack\n\
               END:VEVENT\n";
    let events = extract_events(doc).unwrap();
    assert_eq!(events.len(), 1);
    assert_eq!(
        events[0],
        PickupEvent {
            date: Date { year: 2024, month: 1, day: 15 },
            category: Category::RecyclablePackaging,
        }
    );
}

#[test]
fn empty_document_yields_no_events_and_no_error() {
    let events = extract_events("").unwrap();
    assert_eq!(events.len(), 0);
}

#[test]
fn unknown_summary_leaves_category_empty_and_block_close_fails() {
    let doc = "DTSTART;TZID=Europe/Berlin;VALUE=DATE:20240115\n\
               SUMMARY:Abfuhr Sondermüll\n\
               END:VEVENT\n";
    assert_eq!(extract_events(doc), Err(ParseError::IncompleteRecord));
}

#[test]
fn wrong_length_start_date_line_is_malformed() {
    let doc = "DTSTART;TZID=Europe/Berlin;VALUE=DATE:2024011\n\
               SUMMARY:Abfuhr gelbe Wertstofftonne/-sack\n\
               END:VEVENT\n";
    assert_eq!(extract_events(doc), Err(ParseError::MalformedStartDate));
}

#[test]
fn wrong_prefix_start_date_line_is_malformed() {
    let doc = "DTSTART;TZID=Europe/Paris0;VALUE=DATE:20240115\nEND:VEVENT\n";
    assert_eq!(extract_events(doc), Err(ParseError::MalformedStartDate));
}

#[test]
fn invalid_date_value_is_malformed() {
    let doc = "DTSTART;TZID=Europe/Berlin;VALUE=DATE:20241301\nEND:VEVENT\n";
    assert_eq!(extract_events(doc), Err(ParseError::MalformedStartDate));
}

#[test]
fn block_without_start_date_is_incomplete() {
    let doc = "SUMMARY:Abfuhr blaue Papiertonne\nEND:VEVENT\n";
    assert_eq!(extract_events(doc), Err(ParseError::IncompleteRecord));
}

#[test]
fn scratch_state_is_cleared_between_blocks() {
    let doc = "DTSTART;TZID=Europe/Berlin;VALUE=DATE:20240115\n\
               SUMMARY:Abfuhr grüne Biotonne\n\
               END:VEVENT\n\
               END:VEVENT\n";
    assert_eq!(extract_events(doc), Err(ParseError::IncompleteRecord));
}

#[test]
fn three_blocks_yield_three_events_in_document_order() {
    let doc = "BEGIN:VCALENDAR\n\
               BEGIN:VEVENT\n\
               DTSTART;TZID=Europe/Berlin;VALUE=DATE:20240102\n\
               SUMMARY:Abfuhr grüne Biotonne\n\
               END:VEVENT\n\
               BEGIN:VEVENT\n\
               DTSTART;TZID=Europe/Berlin;VALUE=DATE:20240214\n\
               SUMMARY:Abfuhr blaue Papiertonne\n\
               END:VEVENT\n\
               BEGIN:VEVENT\n\
               DTSTART;TZID=Europe/Berlin;VALUE=DATE:20241224\n\
               SUMMARY:Abfuhr Weihnachtsbäume\n\
               END:VEVENT\n\
               END:VCALENDAR\n";
    let events = extract_events(doc).unwrap();
    assert_eq!(events.len(), 3);
    assert_eq!(events[0].date, Date { year: 2024, month: 1, day: 2 });
    assert_eq!(events[0].category, Category::BioWaste);
    assert_eq!(events[1].date, Date { year: 2024, month: 2, day: 14 });
    assert_eq!(events[1].category, Category::Paper);
    assert_eq!(events[2].date, Date { year: 2024, month: 12, day: 24 });
    assert_eq!(events[2].category, Category::HolidayTrees);
}

#[test]
fn every_category_is_recognized() {
    let cases = [
        ("Abfuhr gelbe Wertstofftonne/-sack", Category::RecyclablePackaging),
        ("Abfuhr grüne Biotonne", Category::BioWaste),
        ("Abfuhr blaue Papiertonne", Category::Paper),
        ("Abfuhr schwarze Restmülltonne", Category::ResidualWaste),
        ("Abfuhr Laubsäcke", Category::LeafBags),
        ("Abfuhr Weihnachtsbäume", Category::HolidayTrees),
    ];
    for (name, category) in cases.iter() {
        let doc = format!(
            "DTSTART;TZID=Europe/Berlin;VALUE=DATE:20240115\nSUMMARY:{}\nEND:VEVENT\n",
            name
        );
        let events = extract_events(&doc).unwrap();
        assert_eq!(events.len(), 1);
        assert_eq!(events[0].category, *category);
    }
}

#[test]
fn category_match_is_case_sensitive() {
    let doc = "DTSTART;TZID=Europe/Berlin;VALUE=DATE:20240115\n\
               SUMMARY:ABFUHR GELBE WERTSTOFFTONNE/-SACK\n\
               END:VEVENT\n";
    assert_eq!(extract_events(doc), Err(ParseError::IncompleteRecord));
}

#[test]
fn trailing_whitespace_and_carriage_returns_are_tolerated() {
    let doc = "DTSTART;TZID=Europe/Berlin;VALUE=DATE:20240115\r\n\
               SUMMARY: Abfuhr Laubsäcke \r\n\
               END:VEVENT\r\n";
    let events = extract_events(doc).unwrap();
    assert_eq!(events.len(), 1);
    assert_eq!(events[0].category, Category::LeafBags);
    assert_eq!(events[0].date, Date { year: 2024, month: 1, day: 15 });
}

#[test]
fn later_recognized_summary_wins_over_earlier_unknown_one() {
    let doc = "DTSTART;TZID=Europe/Berlin;VALUE=DATE:20240115\n\
               SUMMARY:Abfuhr Sondermüll\n\
               SUMMARY:Abfuhr schwarze Restmülltonne\n\
               END:VEVENT\n";
    let events = extract_events(doc).unwrap();
    assert_eq!(events.len(), 1);
    assert_eq!(events[0].category, Category::ResidualWaste);
}

#[test]
fn unrelated_lines_are_ignored() {
    let doc = "X-WR-CALNAME:Abfuhrkalender\n\
               UID:12345\n\
               DTSTART;TZID=Europe/Berlin;VALUE=DATE:20240115\n\
               LOCATION:Hamburg\n\
               SUMMARY:Abfuhr grüne Biotonne\n\
               DESCRIPTION:whatever\n\
               END:VEVENT\n";
    let events = extract_events(doc).unwrap();
    assert_eq!(events.len(), 1);
}

#[test]
fn reserialized_output_parses_to_the_same_events() {
    let doc = "DTSTART;TZID=Europe/Berlin;VALUE=DATE:20240102\n\
               SUMMARY:Abfuhr grüne Biotonne\n\
               END:VEVENT\n\
               DTSTART;TZID=Europe/Berlin;VALUE=DATE:20240214\n\
               SUMMARY:Abfuhr blaue Papiertonne\n\
               END:VEVENT\n";
    let events = extract_events(doc).unwrap();
    let mut again = String::new();
    for e in events.iter() {
        let name = match e.category {
            Category::RecyclablePackaging => "Abfuhr gelbe Wertstofftonne/-sack",
            Category::BioWaste => "Abfuhr grüne Biotonne",
            Category::Paper => "Abfuhr blaue Papiertonne",
            Category::ResidualWaste => "Abfuhr schwarze Restmülltonne",
            Category::LeafBags => "Abfuhr Laubsäcke",
            Category::HolidayTrees => "Abfuhr Weihnachtsbäume",
        };
        again.push_str(&format!(
            "DTSTART;TZID=Europe/Berlin;VALUE=DATE:{:04}{:02}{:02}\nSUMMARY:{}\nEND:VEVENT\n",
            e.date.year, e.date.month, e.date.day, name
        ));
    }
    let events_again = extract_events(&again).unwrap();
    assert_eq!(events_again, events);
}
