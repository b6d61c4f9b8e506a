use simple_undo::Undo;

#[derive(Clone)]
struct Counter {
    count: u64,
}

type CounterUndo = Undo<Counter, fn(&Counter) -> Counter>;

#[test]
fn it_can_undo_and_redo_updates() {
    let mut counter: CounterUndo = Undo::new(Counter { count: 0 });
    assert_eq!(counter.count, 0);
    counter.update(|_| Counter { count: 5 });
    assert_eq!(counter.count, 5);
    counter.update(|c| Counter { count: c.count + 3 });
    assert_eq!(counter.count, 8);

    counter.undo();
    assert_eq!(counter.count, 5);
    counter.undo();
    assert_eq!(counter.count, 0);

    counter.redo();
    assert_eq!(counter.count, 5);
    counter.redo();
    assert_eq!(counter.count, 8);
}

#[test]
fn it_does_nothing_on_too_many_undo_or_redo() {
    let mut counter: CounterUndo = Undo::new(Counter { count: 3 });
    counter.undo();
    assert_eq!(counter.count, 3);
    counter.redo();
    assert_eq!(counter.count, 3);
    counter.update(|_| Counter { count: 8 });
    assert_eq!(counter.count, 8);
    counter.undo();
    counter.undo();
    counter.undo();
    assert_eq!(counter.count, 3);
    counter.redo();
    counter.redo();
    counter.redo();
    counter.redo();
    assert_eq!(counter.count, 8);
}

#[test]
fn it_discards_previous_updates_when_updating_after_an_undo() {
    let mut counter: CounterUndo = Undo::new(Counter { count: 0 });
    counter.update(|c| Counter { count: c.count + 2 });
    counter.update(|c| Counter { count: c.count + 2 });
    counter.update(|c| Counter { count: c.count + 2 });
    counter.update(|c| Counter { count: c.count + 2 });
    counter.update(|c| Counter { count: c.count + 2 });
    assert_eq!(counter.count, 10);
    counter.undo(); // 8
    counter.undo(); // 6
    counter.undo(); // 4
    counter.redo(); // 6
    assert_eq!(counter.count, 6);
    counter.update(|c| Counter { count: c.count + 10 }); // discards the undone updates
    assert_eq!(counter.count, 16);
    counter.redo(); // nothing
    counter.redo(); // nothing
    counter.undo(); // 6
    counter.undo(); // 4
    assert_eq!(counter.count, 4);
    counter.redo(); // 6
    counter.redo(); // 16
    counter.redo(); // nothing
    assert_eq!(counter.count, 16);
}

#[test]
fn it_unwraps_the_inner_value() {
    let mut counter: CounterUndo = Undo::new(Counter { count: 0 });
    counter.update(|_| Counter { count: 5 });

    let counter: Counter = counter.unwrap();
    assert_eq!(counter.count, 5);
}

#[test]
fn it_works_with_string() {
    let mut input_text: Undo<String, fn(&String) -> String> = Undo::new(String::new());
    input_text.update(|text| format!("{}H", text)); // H
    input_text.update(|text| format!("{}e", text)); // He
    input_text.update(|text| format!("{}l", text)); // Hel
    input_text.update(|text| format!("{}k", text)); // Helk
    input_text.update(|text| format!("{}o", text)); // Helko
    input_text.undo(); // Helk
    input_text.undo(); // Hel
    input_text.undo(); // He
    input_text.redo(); // Hel
    input_text.update(|text| format!("{}l", text)); // Hell
    input_text.update(|text| format!("{}o", text)); // Hello

    let result: String = input_text.unwrap();
    assert_eq!(result, "Hello");
}
