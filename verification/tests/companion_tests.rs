use minigrep::basics::document_comment;
use minigrep::basics::function_has_returns;
use minigrep::enums::plus_one;
use minigrep::enums::UsState;
use minigrep::garden::has_eaten_before;
use minigrep::garden::Vegetables;
use minigrep::garden::vegetables::Asparagus;
use minigrep::guessing::evaluate_guess;
use minigrep::guessing::GuessOutcome;
use minigrep::guessing::GuessingGame;
use minigrep::inventory::shoes_in_size;
use minigrep::inventory::Inventory;
use minigrep::inventory::ShirtColor;
use minigrep::inventory::Shoe;
use minigrep::ownership::correct_first_word;
use minigrep::ownership::gives_ownership;
use minigrep::ownership::scalable_first_word;
use minigrep::ownership::takes_and_gives_back;
use minigrep::ownership::_calculate_length;
use minigrep::ownership::_calculate_length_using_ref;
use minigrep::ownership::_change_string;
use minigrep::ownership::_first_word;
use minigrep::structures::add_vectors;
use minigrep::structures::build_user;
use minigrep::structures::Point;
use minigrep::structures::Rectangle;
use minigrep::summaries::largest;
use minigrep::summaries::longest;
use minigrep::summaries::returns_summarize;
use minigrep::summaries::Author;
use minigrep::summaries::NewsArticle;
use minigrep::summaries::Pair;
use minigrep::summaries::Product;
use minigrep::summaries::Summary;

#[test]
fn ownership_round_trips() {
    assert_eq!(gives_ownership(), "Huaier");
    let s = String::from("Hello");
    assert_eq!(takes_and_gives_back(s), "Hello");
    let (back, len) = _calculate_length(String::from("hello"));
    assert_eq!(back, "hello");
    assert_eq!(len, 5);
    assert_eq!(_calculate_length_using_ref(&String::from("hello")), 5);
    let mut s = String::from("say ");
    _change_string(&mut s);
    assert_eq!(s, "say hello");
}

#[test]
fn first_words() {
    let s = String::from("Love you Huaier");
    assert_eq!(_first_word(&s), 4);
    assert_eq!(correct_first_word(&s), "Love");
    assert_eq!(scalable_first_word("Love you Huaier"), "Love");
    assert_eq!(scalable_first_word(&s[..2]), "Lo");
    assert_eq!(_first_word(&String::from("solo")), 4);
    assert_eq!(_first_word(&String::from("\u{e9} x")), 2);
}

#[test]
fn structure_builders() {
    let u = build_user(String::from("test@test.com"), String::from("Jack"));
    assert!(u.active);
    assert_eq!(u.username, "Jack");
    assert_eq!(u.email, "test@test.com");
    assert_eq!(u.sign_in_count, 1);

    let Point(x, y, z) = add_vectors(Point(1, 2, 0), Point(0, -2, 3));
    assert_eq!((x, y, z), (1, 0, 3));

    let r = Rectangle { width: 30, height: 50 };
    assert_eq!(r.area(), 1500);
    assert!(r.can_hold(&Rectangle { width: 10, height: 40 }));
    assert!(!r.can_hold(&Rectangle { width: 60, height: 45 }));
    let sq = Rectangle::square(3);
    assert_eq!((sq.width, sq.height), (3, 3));
}

#[test]
fn enum_matches() {
    assert_eq!(plus_one(Some(5)), Some(6));
    assert_eq!(plus_one(None), None);
    assert!(UsState::Alabama.existed_in(1890));
    assert!(!UsState::Alabama.existed_in(1800));
    assert!(!UsState::Alaska.existed_in(1890));
}

#[test]
fn garden_eating_history() {
    assert!(has_eaten_before(Vegetables::Carrot));
    assert!(!has_eaten_before(Vegetables::Broccoli));
    assert!(!Asparagus::has_eaten_asparagus());
}

#[test]
fn article_summaries() {
    let news = NewsArticle {
        headline: String::from("Let me do it for you"),
        location: String::from("China"),
        author: String::from("AshGrey"),
        content: String::from("So would you let me do it for you?"),
    };
    assert_eq!(news.summarize(), "Let me do it for you, by AshGrey China");
    assert_eq!(news.summarize_author(), "@Let me do it for you, by AshGrey China");
    assert_eq!(news.show_author(), "@AshGrey");

    let other = returns_summarize();
    assert_eq!(other.summarize(), "Let me do it for you, by Huaier Japan");
}

#[test]
fn generic_helpers() {
    assert_eq!(largest(&vec![13, 34, 100, 65, 20]), 100);
    assert_eq!(longest("This", "AshGrey"), "AshGrey");
    assert_eq!(longest("\u{e9}\u{e9}", "abc"), "\u{e9}\u{e9}");

    let prod = Product { fst: 5, snd: "This" };
    assert_eq!(*prod.fst(), 5);
    assert_eq!(*prod.snd(), "This");

    let pair = Pair::new(2, 7);
    assert_eq!((pair.x, pair.y), (2, 7));
}

#[test]
fn inventory_giveaway_policy() {
    let store = Inventory {
        shirts: vec![ShirtColor::Blue, ShirtColor::Red, ShirtColor::Blue],
    };
    assert_eq!(store.most_stocked(), ShirtColor::Blue);
    assert_eq!(store.giveaway(Some(ShirtColor::Red)), ShirtColor::Red);
    assert_eq!(store.giveaway(None), ShirtColor::Blue);

    let reds = Inventory {
        shirts: vec![ShirtColor::Red, ShirtColor::Red, ShirtColor::Blue],
    };
    assert_eq!(reds.most_stocked(), ShirtColor::Red);
}

#[test]
fn shoes_filtered_by_size() {
    let shoes = vec![
        Shoe { size: 10, style: String::from("sneaker") },
        Shoe { size: 13, style: String::from("sandal") },
        Shoe { size: 10, style: String::from("boot") },
    ];
    let in_my_size = shoes_in_size(shoes, 10);
    assert_eq!(
        in_my_size,
        vec![
            Shoe { size: 10, style: String::from("sneaker") },
            Shoe { size: 10, style: String::from("boot") },
        ]
    );
}

#[test]
fn guessing_outcomes() {
    assert_eq!(evaluate_guess(50, 30), GuessOutcome::TooSmall);
    assert_eq!(evaluate_guess(50, 80), GuessOutcome::TooBig);
    assert_eq!(evaluate_guess(50, 50), GuessOutcome::Win);
}

#[test]
fn guessing_game_secret_stays_in_range() {
    let game = GuessingGame::start();
    assert_eq!(game.check(0), GuessOutcome::TooSmall);
    assert_eq!(game.check(101), GuessOutcome::TooBig);
    let mut wins: u32 = 0;
    for guess in 1..=100u32 {
        if game.check(guess) == GuessOutcome::Win {
            wins += 1;
        }
    }
    assert_eq!(wins, 1);
}

#[test]
fn documented_numbers() {
    assert_eq!(document_comment(), 2);
    assert_eq!(function_has_returns(3), 4);
}

#[test]
fn effect_free_demos_run() {
    minigrep::inventory::infer_type();
    minigrep::summaries::static_lifetime();
}
