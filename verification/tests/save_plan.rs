use cattongue::plan::{start, step, Command, Reply, SaveState, Table};

fn run(replies: &[Reply]) -> Vec<Command> {
    let mut state = start();
    let mut reply = Reply::Done;
    let mut asked = Vec::new();
    let mut answers = replies.iter();
    loop {
        let (to, command) = step(state, reply);
        state = to;
        asked.push(command);
        if let Command::Finish { .. } = command {
            return asked;
        }
        reply = *answers.next().expect("the plan asked for more than the script answers");
    }
}

#[test]
fn both_rows_are_there() {
    assert_eq!(
        run(&[Reply::Done, Reply::Found(3), Reply::Found(7), Reply::Done, Reply::Done]),
        vec![
            Command::Begin,
            Command::Select(Table::Bicmid),
            Command::Select(Table::UrlOrigin),
            Command::AddCat { bicmid_id: 3, url_origin_id: 7 },
            Command::Commit,
            Command::Finish { saved: true },
        ]
    );
}

#[test]
fn both_rows_are_stored_first() {
    assert_eq!(
        run(&[
            Reply::Done,
            Reply::Missing,
            Reply::Stored(1),
            Reply::Missing,
            Reply::Stored(2),
            Reply::Done,
            Reply::Done,
        ]),
        vec![
            Command::Begin,
            Command::Select(Table::Bicmid),
            Command::Insert(Table::Bicmid),
            Command::Select(Table::UrlOrigin),
            Command::Insert(Table::UrlOrigin),
            Command::AddCat { bicmid_id: 1, url_origin_id: 2 },
            Command::Commit,
            Command::Finish { saved: true },
        ]
    );
}

#[test]
fn sentinel_rows_are_rows() {
    assert_eq!(
        run(&[Reply::Done, Reply::Found(0), Reply::Found(0), Reply::Done, Reply::Done]),
        vec![
            Command::Begin,
            Command::Select(Table::Bicmid),
            Command::Select(Table::UrlOrigin),
            Command::AddCat { bicmid_id: 0, url_origin_id: 0 },
            Command::Commit,
            Command::Finish { saved: true },
        ]
    );
}

#[test]
fn failure_to_begin_ends_the_save() {
    assert_eq!(run(&[Reply::Failed]), vec![Command::Begin, Command::Finish { saved: false }]);
}

#[test]
fn failure_inside_the_transaction_rolls_back() {
    let rolled_back = [Command::Rollback, Command::Finish { saved: false }];
    let asked = run(&[Reply::Done, Reply::Failed, Reply::Done]);
    assert_eq!(asked[2..], rolled_back);
    let asked = run(&[Reply::Done, Reply::Missing, Reply::Failed, Reply::Done]);
    assert_eq!(asked[3..], rolled_back);
    let asked = run(&[Reply::Done, Reply::Found(1), Reply::Failed, Reply::Failed]);
    assert_eq!(asked[3..], rolled_back);
    let asked = run(&[Reply::Done, Reply::Found(1), Reply::Missing, Reply::Failed, Reply::Done]);
    assert_eq!(asked[4..], rolled_back);
    let asked = run(&[Reply::Done, Reply::Found(1), Reply::Found(1), Reply::Failed, Reply::Done]);
    assert_eq!(asked[4..], rolled_back);
}

#[test]
fn failure_to_commit_is_no_save() {
    let asked = run(&[Reply::Done, Reply::Found(1), Reply::Found(1), Reply::Done, Reply::Failed]);
    assert_eq!(asked[4..], [Command::Commit, Command::Finish { saved: false }]);
}

#[test]
fn negative_row_id_is_not_gone_on_from() {
    let asked = run(&[Reply::Done, Reply::Found(-1), Reply::Done]);
    assert_eq!(asked[2..], [Command::Rollback, Command::Finish { saved: false }]);
    let asked = run(&[Reply::Done, Reply::Missing, Reply::Stored(-1), Reply::Done]);
    assert_eq!(asked[3..], [Command::Rollback, Command::Finish { saved: false }]);
    let asked = run(&[Reply::Done, Reply::Found(1), Reply::Found(-1), Reply::Done]);
    assert_eq!(asked[3..], [Command::Rollback, Command::Finish { saved: false }]);
}

#[test]
fn answer_of_the_wrong_kind_rolls_back() {
    let asked = run(&[Reply::Done, Reply::Stored(1), Reply::Done]);
    assert_eq!(asked[2..], [Command::Rollback, Command::Finish { saved: false }]);
    let asked = run(&[Reply::Done, Reply::Missing, Reply::Found(1), Reply::Done]);
    assert_eq!(asked[3..], [Command::Rollback, Command::Finish { saved: false }]);
    let asked = run(&[Reply::Done, Reply::Found(1), Reply::Found(2), Reply::Missing, Reply::Done]);
    assert_eq!(asked[4..], [Command::Rollback, Command::Finish { saved: false }]);
}

#[test]
fn finished_plan_stays_finished() {
    let done = SaveState::Finished { saved: true };
    assert_eq!(step(done, Reply::Failed), (done, Command::Finish { saved: true }));
    let failed = SaveState::Finished { saved: false };
    assert_eq!(step(failed, Reply::Done), (failed, Command::Finish { saved: false }));
}

#[test]
fn first_step_does_not_look_at_the_answer() {
    assert_eq!(step(start(), Reply::Failed), (SaveState::Beginning, Command::Begin));
    assert_eq!(step(start(), Reply::Found(5)), (SaveState::Beginning, Command::Begin));
}
