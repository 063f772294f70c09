use concord_bots::handlers::fun::{
    choice_reply, choose_command, determine_rps_winner, eight_ball_command, eight_ball_responses,
    flip_command, flip_reply, parse_hand, parse_options, round_reply, rps_command, RpsResult,
};
use concord_bots::handlers::utility::{
    attachment_filename, define_command, define_reply, define_url, delete_command, deleted_reply, edit_command,
    edited_reply, fact_command, fallback_price_reply, format_number, format_uptime, geocode_url,
    increment_message_count, joke_command, locate, meme_command, number_emoji, parse_dice_spec,
    parse_reminder_input, parse_roll, poll_command, price_command, quote_command, remind_command,
    roll_command, roll_reply, savefile_reply, shorten_command, shorten_reply, stats_command,
    time_command, translate_command, translate_reply, translate_url, undeleted_reply,
    weather_code_to_emoji, weather_command, weather_reply, weather_url, Fetched, Measured,
};
use concord_bots::json;
use concord_bots::url::url_encode;

#[test]
fn test_parse_dice_spec() {
    assert_eq!(parse_dice_spec("3d6"), Some((3, 6)));
    assert_eq!(parse_dice_spec("1d20"), Some((1, 20)));
    assert_eq!(parse_dice_spec("2d100"), Some((2, 100)));
    assert_eq!(parse_dice_spec("0d6"), Some((0, 6)));
    assert_eq!(parse_dice_spec("abc"), None);
    assert_eq!(parse_dice_spec("3x6"), None);
}

#[test]
fn test_format_uptime() {
    assert_eq!(format_uptime(0), "0s");
    assert_eq!(format_uptime(45), "45s");
    assert_eq!(format_uptime(90), "1m 30s");
    assert_eq!(format_uptime(3661), "1h 1m 1s");
    assert_eq!(format_uptime(90061), "1d 1h 1m");
}

#[test]
fn test_weather_code() {
    assert_eq!(weather_code_to_emoji(Some(0)), "☀️ Clear sky");
    assert_eq!(weather_code_to_emoji(Some(3)), "☁️ Overcast");
    assert_eq!(weather_code_to_emoji(Some(95)), "⛈️ Thunderstorm");
    assert_eq!(weather_code_to_emoji(None), "❓ Unknown");
}

#[test]
fn test_parse_reminder_input() {
    // Short format
    let (desc, msg) = parse_reminder_input("30m Call mom").unwrap();
    assert_eq!(desc, "30 minutes");
    assert_eq!(msg, "Call mom");

    // Long format
    let (desc, msg) = parse_reminder_input("2 hours Check the oven").unwrap();
    assert_eq!(desc, "2 hours");
    assert_eq!(msg, "Check the oven");

    // Day format
    let (desc, msg) = parse_reminder_input("1d Pay bills").unwrap();
    assert_eq!(desc, "1 day");
    assert_eq!(msg, "Pay bills");

    // Singular
    let (desc, _) = parse_reminder_input("1 minute Test").unwrap();
    assert_eq!(desc, "1 minute");

    // Invalid
    assert!(parse_reminder_input("notime here").is_none());
    assert!(parse_reminder_input("").is_none());
}

#[test]
fn test_number_emoji() {
    assert_eq!(number_emoji(1), "1⃣");
    assert_eq!(number_emoji(5), "5⃣");
    assert_eq!(number_emoji(10), "🔟");
    assert_eq!(number_emoji(99), "❓");
}

#[test]
fn test_url_encode() {
    assert_eq!(url_encode("hello"), "hello");
    assert_eq!(url_encode("hello world"), "hello%20world");
    assert_eq!(
        url_encode("https://example.com/path?q=1&a=b"),
        "https%3A%2F%2Fexample.com%2Fpath%3Fq%3D1%26a%3Db"
    );
    assert_eq!(url_encode("a-b_c.d~e"), "a-b_c.d~e");
}

#[test]
fn test_rps_winner() {
    assert!(matches!(determine_rps_winner("rock", "scissors"), RpsResult::Win));
    assert!(matches!(determine_rps_winner("paper", "rock"), RpsResult::Win));
    assert!(matches!(determine_rps_winner("scissors", "paper"), RpsResult::Win));

    assert!(matches!(determine_rps_winner("rock", "paper"), RpsResult::Lose));
    assert!(matches!(determine_rps_winner("paper", "scissors"), RpsResult::Lose));
    assert!(matches!(determine_rps_winner("scissors", "rock"), RpsResult::Lose));

    assert!(matches!(determine_rps_winner("rock", "rock"), RpsResult::Tie));
    assert!(matches!(determine_rps_winner("paper", "paper"), RpsResult::Tie));
    assert!(matches!(determine_rps_winner("scissors", "scissors"), RpsResult::Tie));
}

#[test]
fn test_eight_ball_responses_exist() {
    assert!(eight_ball_responses().len() == 20);
    // Classic 8-ball has 20 answers
}

#[test]
fn letters_beyond_ascii_are_encoded_by_bytes() {
    assert_eq!(url_encode("é|"), "%C3%A9%7C");
}

#[test]
fn digits_are_grouped_in_threes() {
    assert_eq!(format_number("67543"), "67,543");
    assert_eq!(format_number("999"), "999");
    assert_eq!(format_number("1234567"), "1,234,567");
    assert_eq!(format_number(""), "");
}

#[test]
fn prices_are_told() {
    assert_eq!(
        price_command(Some("67543"), Some((true, "+1.5"))),
        "₿ Bitcoin: $67,543 📈 (+1.5% 24h)"
    );
    assert_eq!(
        price_command(Some("100"), Some((false, "-2.0"))),
        "₿ Bitcoin: $100 📉 (-2.0% 24h)"
    );
    assert_eq!(price_command(None, None), "₿ Bitcoin: unavailable");
    let data = json::read("{\"data\":{\"amount\":\"67000.10\"}}").unwrap();
    assert_eq!(fallback_price_reply(Some(&data)), "₿ Bitcoin: $67000.10");
    assert_eq!(fallback_price_reply(None), "⚠️ Could not fetch Bitcoin price right now.");
}

#[test]
fn times_are_told_in_zones() {
    assert_eq!(time_command("", 0).unwrap(), "🕐 1970-01-01 00:00:00 UTC");
    assert_eq!(
        time_command(" Asia/Tokyo ", 1_700_000_000).unwrap(),
        "🕐 2023-11-15 07:13:20 (Asia/Tokyo)"
    );
    assert_eq!(
        time_command("Mars", 0).unwrap(),
        "⚠️ Unknown timezone \"Mars\". Try: UTC, US/Eastern, US/Central, US/Pacific, Europe/London, Asia/Tokyo\nFull list: https://en.wikipedia.org/wiki/List_of_tz_database_time_zones"
    );
    assert!(time_command("", i64::MAX).is_none());
}

#[test]
fn rolls_are_read_and_told() {
    assert_eq!(parse_roll(""), Ok((1, 6)));
    assert_eq!(parse_roll("20"), Ok((1, 20)));
    assert_eq!(parse_roll(" 3D6 "), Ok((3, 6)));
    assert_eq!(
        parse_roll("x"),
        Err("Usage: !roll [NdS] — e.g. !roll, !roll 20, !roll 3d6".to_string())
    );
    assert_eq!(parse_roll("0d6"), Err("⚠️ Roll between 1 and 100 dice.".to_string()));
    assert_eq!(parse_roll("101d6"), Err("⚠️ Roll between 1 and 100 dice.".to_string()));
    assert_eq!(parse_roll("1"), Err("⚠️ Dice must have 2-1000 sides.".to_string()));
    assert_eq!(parse_roll("1d1001"), Err("⚠️ Dice must have 2-1000 sides.".to_string()));
    assert_eq!(roll_reply(&vec![4], 6), "🎲 4 (d6)");
    assert_eq!(roll_reply(&vec![4, 1, 6], 6), "🎲 [4 + 1 + 6] = 11 (3d6)");
    for _ in 0..50 {
        let said = roll_command("2");
        assert!(said == "🎲 1 (d2)" || said == "🎲 2 (d2)");
    }
}

#[test]
fn stats_are_told() {
    assert_eq!(
        stats_command(61, 7, 2, "0.1.0", "npub1bot"),
        "📊 **Bot Stats**\nUptime: 1m 1s\nMessages processed: 7\nTracked users (rate limiter): 2\nVersion: v0.1.0\nnpub: npub1bot"
    );
    let mut n: u64 = 7;
    increment_message_count(&mut n);
    assert_eq!(n, 8);
    n = u64::MAX;
    increment_message_count(&mut n);
    assert_eq!(n, 0);
}

#[test]
fn weather_is_told() {
    assert_eq!(
        weather_command(" "),
        Err("Usage: !weather <zipcode>\nExample: !weather 10001".to_string())
    );
    assert_eq!(weather_command(" 10001 "), Ok("10001".to_string()));
    assert_eq!(
        geocode_url("10001"),
        "https://nominatim.openstreetmap.org/search?postalcode=10001&format=json&limit=1&countrycodes=us"
    );
    let found = json::read("[{\"lat\":\"40.7\",\"lon\":\"-74\",\"display_name\":\"New York , NY\"}]").unwrap();
    let place = match locate(Some(&found), "10001") {
        Ok(p) => p,
        Err(_) => panic!("the place is known"),
    };
    assert_eq!(place.name, "New York");
    assert_eq!((place.lat.as_str(), place.lon.as_str()), ("40.7", "-74"));
    assert!(weather_url("40.7", "-74").starts_with(
        "https://api.open-meteo.com/v1/forecast?latitude=40.7&longitude=-74&current=temperature_2m"
    ));
    let nothing = json::read("[]").unwrap();
    assert!(matches!(locate(Some(&nothing), "1"), Err(e) if e == "⚠️ No location found for zipcode 1."));
    assert!(matches!(locate(None, "1"), Err(e) if e == "⚠️ Could not look up that zipcode."));
    let m = Measured {
        temperature: Some("70"),
        feels: Some("75"),
        humidity: Some("40"),
        wind: Some("3.5"),
        code: Some(2),
    };
    assert_eq!(
        weather_reply("New York", "10001", Some(&m)),
        "🌤️ **New York (ZIP 10001)**\nTemperature: 70°F (feels like 75°F)\nHumidity: 40%\nWind: 3.5 mph\nConditions: ⛅ Partly cloudy"
    );
    assert_eq!(weather_reply("x", "1", None), "⚠️ Could not fetch weather data.");
}

#[test]
fn reminders_are_told() {
    assert_eq!(remind_command("30m Call mom"), "⏰ Reminder set: Call mom (in 30 minutes)");
    assert_eq!(
        remind_command("30m"),
        "⚠️ Please provide a message after the time.\nExample: !remind 30m Call mom"
    );
    assert!(remind_command("soon x").starts_with("⚠️ Could not parse time."));
    assert!(remind_command("").starts_with("Usage: !remind <time> <message>"));
    assert!(parse_reminder_input("99999999999999999999m x").is_none());
}

#[test]
fn polls_need_two_options() {
    assert_eq!(
        poll_command("Pizza? | Yes || No "),
        "📊 **Pizza?**\n  1⃣️ Yes\n  2⃣️ No\n\nReact to vote!"
    );
    assert_eq!(
        poll_command("Pizza? | Yes"),
        "⚠️ Need a question and at least 2 options.\nExample: !poll Pizza? | Yes | No"
    );
    assert!(poll_command("").starts_with("Usage: !poll"));
}

#[test]
fn translations_are_told() {
    assert_eq!(
        translate_command("es Hello  world"),
        Ok(("es".to_string(), "Hello  world".to_string()))
    );
    assert_eq!(
        translate_command("es"),
        Err("⚠️ Provide a language code and text.\nExample: !translate es Hello world".to_string())
    );
    assert!(translate_command("").is_err());
    assert_eq!(
        translate_url("es", "a b"),
        "https://api.mymemory.translated.net/get?q=a%20b&langpair=en|es"
    );
    let data = json::read("{\"responseData\":{\"translatedText\":\"Hola\"}}").unwrap();
    assert_eq!(translate_reply("es", Some(&data)), "🌍 (EN → ES): Hola");
    let bad = json::read("{}").unwrap();
    assert_eq!(translate_reply("es", Some(&bad)), "🌍 (EN → ES): Could not parse translation.");
    assert_eq!(translate_reply("es", None), "⚠️ Could not translate text right now.");
}

#[test]
fn definitions_are_told() {
    assert_eq!(define_url("a b"), "https://api.dictionaryapi.dev/api/v2/entries/en/a%20b");
    assert_eq!(define_command(" x "), Ok("x".to_string()));
    assert!(define_command("").is_err());
    let data = json::read("[{\"phonetic\":\"/x/\",\"meanings\":[{\"partOfSpeech\":\"noun\",\"definitions\":[{\"definition\":\"one\"},{},{\"definition\":\"two\"}]},{\"definitions\":[{\"definition\":\"three\"},{\"definition\":\"four\"}]}]}]").unwrap();
    assert_eq!(
        define_reply("x", Some(&data)),
        "📖 **x** /x/\n  *(noun)* one\n  *(noun)* two\n  *(?)* three"
    );
    let empty = json::read("[{}]").unwrap();
    assert_eq!(define_reply("x", Some(&empty)), "📖 **x**\n  No definitions available.");
    let none = json::read("[]").unwrap();
    assert_eq!(define_reply("x", Some(&none)), "⚠️ No definition found for \"x\".");
    assert_eq!(define_reply("x", None), "⚠️ No definition found for \"x\".");
}

#[test]
fn small_talk_is_told() {
    let q = json::read("{\"content\":\"Be.\",\"author\":\"Me\"}").unwrap();
    assert_eq!(quote_command(Some(&q)), "💬 \"Be.\" — Me");
    assert_eq!(quote_command(None), "⚠️ Could not fetch a quote right now.");
    let j = json::read("{\"joke\":\"Ha\"}").unwrap();
    assert_eq!(joke_command(Fetched::Data(&j)), "😄 Ha");
    assert_eq!(joke_command(Fetched::Unreadable), "⚠️ Could not parse joke response.");
    assert_eq!(joke_command(Fetched::Failed), "⚠️ Could not fetch a joke right now.");
    assert_eq!(fact_command(Some(&q)), "🧠 Could not parse fact.");
    assert_eq!(fact_command(None), "⚠️ Could not fetch a fact right now.");
    let m = json::read("{\"title\":\"T\",\"url\":\"http://m\",\"subreddit\":\"s\"}").unwrap();
    assert_eq!(meme_command(Some(&m)), "🤣 **T** (r/s)\nhttp://m");
    assert_eq!(meme_command(Some(&q)), "🤣 **A meme**");
    assert_eq!(meme_command(None), "⚠️ Could not fetch a meme right now.");
}

#[test]
fn links_are_shortened() {
    assert_eq!(
        shorten_command("https://a.b/c"),
        Ok("https://is.gd/create.php?format=json&url=https%3A%2F%2Fa.b%2Fc".to_string())
    );
    assert_eq!(
        shorten_command("a.b"),
        Err("⚠️ URL must start with http:// or https://".to_string())
    );
    assert!(shorten_command("").is_err());
    let ok = json::read("{\"shorturl\":\"https://is.gd/x\"}").unwrap();
    assert_eq!(shorten_reply(Some(&ok)), "🔗 https://is.gd/x");
    let bad = json::read("{\"errormessage\":\"No.\"}").unwrap();
    assert_eq!(shorten_reply(Some(&bad)), "⚠️ No.");
    assert_eq!(shorten_reply(None), "⚠️ Could not shorten URL right now.");
}

#[test]
fn messages_are_deleted_and_edited() {
    assert!(delete_command("").is_err());
    assert_eq!(delete_command(" abc "), Ok("abc".to_string()));
    assert!(edit_command("abc").is_err());
    assert_eq!(edit_command("abc new text"), Ok(("abc".to_string(), "new text".to_string())));
    assert_eq!(edit_command("abc  "), Err("Usage: !edit <message_id> <new text>".to_string()));
    assert_eq!(edited_reply(None), "✏️ Message edited.");
    assert_eq!(edited_reply(Some("no")), "⚠️ Edit failed: no");
    assert_eq!(deleted_reply(), "🗑️ Message deleted.");
    assert_eq!(
        undeleted_reply("Denied(Permission)", "denied"),
        "⚠️ I don't have permission to delete that message."
    );
    assert_eq!(undeleted_reply("Gone", "gone"), "⚠️ Delete failed: gone");
}

#[test]
fn attachments_are_named() {
    assert_eq!(attachment_filename("", "id", "png"), "id.png");
    assert_eq!(attachment_filename("a.png", "id", "png"), "a.png");
    assert_eq!(savefile_reply("a.png", 12, Ok("/d/a.png")), "💾 Saved a.png (12 bytes) to /d/a.png");
    assert_eq!(savefile_reply("a.png", 12, Err("no")), "⚠️ Failed to save a.png: no");
}

#[test]
fn chance_answers_stay_within_bounds() {
    let said = eight_ball_command("Will it?");
    assert!(eight_ball_responses().iter().any(|r| said.contains(r.as_str())));
    assert_eq!(eight_ball_command(" "), "🎱 Usage: !8ball <question>");
    assert_ne!(flip_reply(true), flip_reply(false));
    let mut seen = [false, false];
    for _ in 0..200 {
        let f = flip_command();
        if f == flip_reply(true) {
            seen[0] = true;
        }
        if f == flip_reply(false) {
            seen[1] = true;
        }
    }
    assert_eq!(seen, [true, true]);
    let c = choose_command("a | b");
    assert!(c == choice_reply("a") || c == choice_reply("b"));
    assert!(parse_options("a").is_err());
    assert_eq!(parse_options("a |  | b "), Ok(vec!["a".to_string(), "b".to_string()]));
}

#[test]
fn hands_are_read() {
    assert_eq!(parse_hand(" ROCK "), Some("rock"));
    assert_eq!(parse_hand("well"), None);
    let said = rps_command("rock");
    assert!(["rock", "paper", "scissors"].iter().any(|b| said == round_reply("rock", b)));
    assert!(rps_command("well").starts_with("Usage: !rps"));
}

#[test]
fn encoded_texts_decode() {
    let value = |c: u8| (c as char).to_digit(16).unwrap() as u8;
    for text in ["", "a b", "100%", "%41", "naïve ☕", "a-b_c.d~e", "\u{1}\u{7f}"] {
        let r = url_encode(text).into_bytes();
        let mut bytes: Vec<u8> = Vec::new();
        let mut i = 0;
        while i < r.len() {
            if r[i] == b'%' {
                bytes.push(16 * value(r[i + 1]) + value(r[i + 2]));
                i += 3;
            } else {
                bytes.push(r[i]);
                i += 1;
            }
        }
        assert_eq!(bytes, text.as_bytes());
    }
    assert_ne!(url_encode("%41"), url_encode("A"));
}
