//! Tests for the smaller components: worked examples, exact formulas, and
//! error paths.

use studies::adv_functions::{do_twice, return_closure};
use studies::adv_traits::{newtype, supertraits, Animal, Dog, Meters, Millimeters, Point};
use studies::back_of_house::Breakfast;
use studies::blog::Post;
use studies::cpu::Cpu;
use studies::cubesat::{check, CubeSat, GroundStation, Mailbox, Status};
use studies::enums::{maybe_inc, value_in_cents, Coin, UsState};
use studies::files::{File, FileState, Read};
use studies::fixed::Q7;
use studies::generics::{largest, longest, Article, Excerpt, Summary, Tweet};
use studies::grep::{split_lines, Config};
use studies::guessing::Guess;
use studies::hello_macro::procedural;
use studies::keyval::{encode_record, process_record, RecordError};
use studies::mandel::{shade, Size};
use studies::ownership::{change_value, get_first_word, get_first_word_end};
use studies::rectangles::{area, area_simple, area_tuple, build_user, Rect};
use studies::stats::mode;
use studies::strconv::{i64_to_string, u64_to_string};
use studies::tracker::{quota_level, QuotaLevel};
use studies::workout::{generate_workout, Workout};

#[test]
fn blog_post_workflow() {
    let mut post = Post::new();

    post.add_text("I wrote a Rust library today");
    assert_eq!("", post.content());

    post.request_review();
    assert_eq!("", post.content());

    post.approve();
    assert_eq!("I wrote a Rust library today", post.content());
}

#[test]
fn workout_decisions() {
    assert_eq!(
        generate_workout(10, 7),
        Workout::Pushups {
            first: 10,
            next: 10
        }
    );
    assert_eq!(generate_workout(30, 3), Workout::Break);
    assert_eq!(generate_workout(30, 7), Workout::Run { minutes: 30 });
}

#[test]
fn mode_of_lists() {
    assert_eq!(mode(&vec![1, 3, 6, 4, 2, 2, 7]), 2);
    assert_eq!(mode(&vec![1, 3, 6, 4, 9, 2, 7, 9]), 9);
    assert_eq!(mode(&vec![]), 0);
}

#[test]
fn coins_and_options() {
    assert_eq!(value_in_cents(Coin::Penny), 1);
    assert_eq!(value_in_cents(Coin::Nickel), 5);
    assert_eq!(value_in_cents(Coin::Dime), 10);
    assert_eq!(value_in_cents(Coin::Quarter(UsState::Alaska)), 25);

    assert_eq!(maybe_inc(Some(5)), Some(6));
    assert_eq!(maybe_inc(None), None);
}

#[test]
fn cpu_adds_with_carry() {
    let mut cpu = Cpu {
        registers: [0; 16],
        program_counter: 0,
        memory: [0; 4096],
        stack: [0; 16],
        stack_pointer: 0,
    };

    // Add register 1 into register 0, then register 2 into register 0,
    // then halt on the zero opcode.
    cpu.memory[0] = 0x80;
    cpu.memory[1] = 0x14;
    cpu.memory[2] = 0x80;
    cpu.memory[3] = 0x24;

    cpu.registers[0] = 5;
    cpu.registers[1] = 10;
    cpu.registers[2] = 7;

    cpu.run();
    assert_eq!(cpu.registers[0], 22);
    assert_eq!(cpu.registers[0xF], 0);

    // An overflowing add wraps and raises the carry flag.
    let mut cpu2 = Cpu {
        registers: [0; 16],
        program_counter: 0,
        memory: [0; 4096],
        stack: [0; 16],
        stack_pointer: 0,
    };
    cpu2.registers[3] = 200;
    cpu2.registers[4] = 100;
    cpu2.add_xy(3, 4);
    assert_eq!(cpu2.registers[3], 44);
    assert_eq!(cpu2.registers[0xF], 1);
}

#[test]
fn mailbox_delivers_by_recipient() {
    let station = GroundStation;
    let mut sat_a = station.connect(0);
    let sat_b = station.connect(1);

    assert_eq!(check(&sat_a), Status::Nominal);
    assert_eq!(check(&sat_b), Status::Nominal);

    let mut mailbox = Mailbox { messages: vec![] };
    station.send(
        &mut mailbox,
        &sat_a,
        String::from("How is it going up there?"),
    );

    let msg = sat_a.recv(&mut mailbox).unwrap();
    assert_eq!(msg.to, 0);
    assert_eq!(msg.content, "How is it going up there?");
    assert!(sat_a.recv(&mut mailbox).is_none());

    let mut absent = CubeSat { id: 9 };
    assert!(absent.recv(&mut mailbox).is_none());
}

#[test]
fn file_lifecycle() {
    let file = File::new("file.txt");
    assert_eq!(file.len(), 0);
    assert_eq!(file.name(), "file.txt");

    let data = vec![114, 117, 115, 116, 33];
    let mut file = File::new_with_data(&file.name(), data);
    assert_eq!(file.len(), 5);

    let mut buffer = vec![];
    match file.open() {
        Ok(()) => {
            let written = file.read(&mut buffer).unwrap();
            assert_eq!(written, 5);
            assert_eq!(buffer, vec![114, 117, 115, 116, 33]);
            file.close();
        }
        Err(msg) => {
            // One open in ten fails, naming the file.
            assert_eq!(msg, "Failed to open file file.txt");
            assert!(file.read(&mut buffer).is_err());
            assert!(buffer.is_empty());
        }
    }

    let closed = File::new_with_data("c.txt", vec![1]);
    let mut sink = vec![];
    assert_eq!(
        closed.read(&mut sink),
        Err(String::from("File must be open for reading"))
    );
}

#[test]
fn record_round_trip_and_errors() {
    let encoded = encode_record(b"key", b"value");
    assert_eq!(&encoded[4..8], &[3u8, 0, 0, 0][..]);
    assert_eq!(&encoded[8..12], &[5u8, 0, 0, 0][..]);
    assert_eq!(&encoded[12..15], &b"key"[..]);
    assert_eq!(&encoded[15..20], &b"value"[..]);

    let (pair, used) = process_record(&encoded).unwrap();
    assert_eq!(used, encoded.len());
    assert_eq!(pair.key, b"key");
    assert_eq!(pair.value, b"value");

    // Too few bytes for a header, or for the promised body.
    assert!(matches!(
        process_record(&[1, 2, 3]),
        Err(RecordError::Truncated)
    ));
    let mut short = encoded.clone();
    short.truncate(14);
    assert!(matches!(
        process_record(&short),
        Err(RecordError::Truncated)
    ));

    // A corrupted body no longer matches the stored checksum.
    let mut corrupted = encoded.clone();
    corrupted[13] ^= 0xFF;
    assert!(matches!(
        process_record(&corrupted),
        Err(RecordError::ChecksumMismatch)
    ));
}

#[test]
fn config_needs_query_and_file() {
    let program = || String::from("studies");

    let r = Config::new(vec![program()], false);
    assert_eq!(r.err(), Some("Can not get query string"));

    let r = Config::new(vec![program(), String::from("needle")], false);
    assert_eq!(r.err(), Some("Can not get file name"));

    let c = Config::new(
        vec![program(), String::from("needle"), String::from("hay.txt")],
        false,
    )
    .unwrap();
    assert_eq!(c.query(), "needle");
    assert_eq!(c.file_path(), "hay.txt");
    assert!(c.case_sensitive());

    let insensitive = Config::new(
        vec![program(), String::from("needle"), String::from("hay.txt")],
        true,
    )
    .unwrap();
    assert!(!insensitive.case_sensitive());
}

#[test]
fn line_splitting() {
    assert_eq!(split_lines("a\nb"), vec!["a", "b"]);
    assert_eq!(split_lines("a\nb\n"), vec!["a", "b"]);
    assert_eq!(split_lines("a\r\nb"), vec!["a", "b"]);
    assert_eq!(split_lines(""), Vec::<&str>::new());
    assert_eq!(split_lines("\n\n"), vec!["", ""]);

    // The splitter agrees with the standard library's notion of lines.
    let texts = ["a\nb", "a\nb\n", "a\r\nb", "", "\n\n", "a\r", "one line", "\r\n"];
    for text in texts {
        assert_eq!(split_lines(text), text.lines().collect::<Vec<&str>>());
    }
}

#[test]
fn guesses_in_range() {
    let g = Guess::new(1);
    assert_eq!(g.get(), 1);
    let g = studies::testing::Guess::new(100);
    let _ = g;
}

#[test]
fn largest_of_each_type() {
    let numbers = vec![1, 6, 3, 9, 23, 523, 1, 2, 3, 0];
    assert_eq!(largest(&numbers), Some(523));
    let characters = vec!['a', 'f', '6', 'g', 'z'];
    assert_eq!(largest(&characters), Some('z'));
    assert_eq!(largest::<i32>(&[]), None);
}

#[test]
fn summaries() {
    let a = Article {
        headline: String::from("This is it"),
        author: String::from("myself"),
        content: String::from("This is the content of the article"),
    };
    assert_eq!(a.author(), "myself");
    assert_eq!(
        a.summarize(),
        "This is it [myself] This is the content of the article"
    );
    assert_eq!(a.default_summary(), "Read more from myself...");

    let t = Tweet {
        username: String::from("mike"),
        content: String::from("Hello from me"),
    };
    assert_eq!(t.author(), "@mike");
    assert_eq!(t.summarize(), "@mike: Hello from me");
    assert_eq!(t.default_summary(), "Read more from @mike...");
}

#[test]
fn longest_and_excerpts() {
    let string1 = String::from("abdc");
    let string2: &'static str = "xyz";
    assert_eq!(longest(string1.as_str(), string2), "abdc");
    assert_eq!(longest("ab", "xyz"), "xyz");

    let exc = Excerpt { part: "ab" };
    assert_eq!(exc.level(), 3);
    assert_eq!(exc.announce_and_return_part("Get part"), "ab");
}

#[test]
fn ownership_helpers() {
    let mut s = String::from("Hello world!");
    change_value(&mut s);
    assert_eq!(s, "Hello world! Bye!");

    assert_eq!(get_first_word_end(&s), 5);
    assert_eq!(get_first_word(&s), "Hello");
    assert_eq!(get_first_word_end("nospace"), 7);
    assert_eq!(get_first_word("nospace"), "nospace");
}

#[test]
fn rectangle_areas() {
    assert_eq!(area_simple(30, 50), 1500);
    assert_eq!(area_tuple((30, 50)), 1500);
    let rect = Rect {
        width: 30,
        height: 50,
    };
    assert_eq!(area(&rect), 1500);
    assert_eq!(rect.area(), 1500);

    let square = Rect::square(4);
    assert_eq!(square.width, 4);
    assert_eq!(square.height, 4);

    let small = Rect {
        width: 10,
        height: 5,
    };
    assert!(rect.can_hold(&small));
    assert!(!small.can_hold(&rect));
}

#[test]
fn built_users_start_inactive() {
    let u = build_user(String::from("a@b"), String::from("ab"));
    assert_eq!(u.email, "a@b");
    assert_eq!(u.username, "ab");
    assert_eq!(u.sign_in_count, 0);
    assert!(!u.active);
}

#[test]
fn adding_points_and_lengths() {
    let sum = Point { x: 1, y: 0 }.add(Point { x: 2, y: 3 });
    assert_eq!(sum, Point { x: 3, y: 3 });

    let length = Millimeters(5).add(Meters(2));
    assert_eq!(length.0, 2005);
}

#[test]
fn baby_names() {
    assert_eq!(Dog::baby_name(), "Spot");
    assert_eq!(<Dog as Animal>::baby_name(), "Puppy");
}

#[test]
fn underlined_printing() {
    assert_eq!(supertraits(), "(1, 2)\n------");
    assert_eq!(newtype(), "[Hello,world]\n-------------");
}

#[test]
fn closures_compose() {
    let f = return_closure();
    assert_eq!(f(2), 3);
    assert_eq!(do_twice(f, 5), 12);
}

#[test]
fn derived_greeting() {
    assert_eq!(procedural(), "Hello, Macro! My name is Pancakes!");
}

#[test]
fn decimal_rendering() {
    assert_eq!(u64_to_string(0), "0");
    assert_eq!(u64_to_string(1234), "1234");
    assert_eq!(i64_to_string(-56), "-56");
    assert_eq!(i64_to_string(7), "7");
}

#[test]
fn shading_palette() {
    assert_eq!(shade(0), ' ');
    assert_eq!(shade(3), '.');
    assert_eq!(shade(10), 'o');
    assert_eq!(shade(30), '*');
    assert_eq!(shade(1000), '%');

    let size = Size::new(100, 30);
    assert_eq!(size.width, 100);
    assert_eq!(size.height, 30);
}

#[test]
fn q7_bits() {
    let q = Q7::from_bits(64);
    assert_eq!(q.bits(), 64);
    assert_eq!(q, Q7(64));
}

#[test]
fn summer_breakfast() {
    let meal = Breakfast::summer("rye");
    assert_eq!(meal.toast, "rye");
    assert_eq!(meal.seasonal_fruit, "raspberry");
}

#[test]
fn file_states_differ() {
    assert_ne!(FileState::Open, FileState::Closed);
}

#[test]
fn quota_thresholds() {
    assert_eq!(quota_level(0, 100), QuotaLevel::Fine);
    assert_eq!(quota_level(74, 100), QuotaLevel::Fine);
    assert_eq!(quota_level(75, 100), QuotaLevel::Warning);
    assert_eq!(quota_level(90, 100), QuotaLevel::Urgent);
    assert_eq!(quota_level(100, 100), QuotaLevel::Exceeded);
    assert_eq!(quota_level(1, 0), QuotaLevel::Exceeded);
    assert_eq!(quota_level(0, 0), QuotaLevel::Fine);
}
