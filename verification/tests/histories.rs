use ideanode::{
    get_memo_category_and_position, insert_category, insert_memo, load_scope, migrate,
    rank_categories, rank_memos, relocate_memo, remove_category, remove_memo,
    CreateCategoryInput, CreateMemoInput, MoveMemoInput, ReorderCategoriesInput,
    ReorderMemosInput, Scope,
};
use rusqlite::Connection;

struct Dice(u64);

impl Dice {
    fn roll(&mut self, sides: usize) -> usize {
        self.0 = self.0.wrapping_mul(6364136223846793005).wrapping_add(1442695040888963407);
        ((self.0 >> 33) % sides as u64) as usize
    }

    fn shuffle(&mut self, mut ids: Vec<String>) -> Vec<String> {
        for i in (1..ids.len()).rev() {
            let j = self.roll(i + 1);
            ids.swap(i, j);
        }
        ids
    }
}

fn ids_of(scope: &Scope) -> Vec<String> {
    let mut members: Vec<(i64, String)> =
        scope.members.iter().map(|m| (m.position, m.id.clone())).collect();
    members.sort();
    members.into_iter().map(|(_, id)| id).collect()
}

fn categories(conn: &Connection) -> Scope {
    load_scope(conn, "categories", None).unwrap()
}

fn memos(conn: &Connection, category: &str) -> Scope {
    load_scope(conn, "memos", Some(("category_id", category))).unwrap()
}

fn all_memos(conn: &Connection) -> Vec<String> {
    load_scope(conn, "memos", None).unwrap().members.into_iter().map(|m| m.id).collect()
}

fn assert_every_scope_dense(conn: &Connection, step: usize) {
    let cats = categories(conn);
    assert!(cats.is_dense(), "categories after step {step}: {cats:?}");
    for category in ids_of(&cats) {
        let scope = memos(conn, &category);
        assert!(scope.is_dense(), "memos of {category} after step {step}: {scope:?}");
    }
}

fn run_history(seed: u64, steps: usize) {
    let mut conn = Connection::open_in_memory().unwrap();
    conn.execute_batch("PRAGMA foreign_keys = ON;").unwrap();
    migrate(&conn).unwrap();
    let mut dice = Dice(seed);
    let mut made = 0;
    for step in 0..steps {
        let cats = ids_of(&categories(&conn));
        let notes = all_memos(&conn);
        match dice.roll(8) {
            0 => {
                made += 1;
                let input = CreateCategoryInput {
                    emoji: None,
                    title: String::new(),
                    color: String::new(),
                    is_todo: false,
                };
                let created = insert_category(&mut conn, &input, &format!("c{made}"), 1).unwrap();
                assert_eq!(created.position, cats.len() as i64);
            }
            1 | 2 if !cats.is_empty() => {
                made += 1;
                let owner = cats[dice.roll(cats.len())].clone();
                let before = memos(&conn, &owner).members.len() as i64;
                let input = CreateMemoInput {
                    category_id: owner,
                    emoji: None,
                    title: String::new(),
                    color: String::new(),
                    date_ymd: None,
                    content_md: String::new(),
                };
                let created = insert_memo(&mut conn, &input, &format!("m{made}"), 1).unwrap();
                assert_eq!(created.position, before);
            }
            3 if !notes.is_empty() => {
                let gone = notes[dice.roll(notes.len())].clone();
                remove_memo(&mut conn, &gone).unwrap();
                assert_eq!(get_memo_category_and_position(&conn, &gone), Ok(None));
            }
            4 if !notes.is_empty() => {
                let moved = notes[dice.roll(notes.len())].clone();
                let (from, _) = get_memo_category_and_position(&conn, &moved).unwrap().unwrap();
                let to = cats[dice.roll(cats.len())].clone();
                let others = memos(&conn, &to).members.len() as i64;
                let size = if to == from { others - 1 } else { others };
                let input = MoveMemoInput { memo_id: moved.clone(), to_category_id: to.clone() };
                relocate_memo(&mut conn, &input, 2).unwrap();
                assert_eq!(get_memo_category_and_position(&conn, &moved), Ok(Some((to, size))));
            }
            5 if !cats.is_empty() => {
                let owner = cats[dice.roll(cats.len())].clone();
                let order = dice.shuffle(ids_of(&memos(&conn, &owner)));
                let input = ReorderMemosInput { category_id: owner.clone(), ordered_ids: order.clone() };
                rank_memos(&mut conn, &input, 3).unwrap();
                assert_eq!(ids_of(&memos(&conn, &owner)), order);
            }
            6 => {
                let order = dice.shuffle(cats.clone());
                let input = ReorderCategoriesInput { ordered_ids: order.clone() };
                rank_categories(&mut conn, &input, 4).unwrap();
                assert_eq!(ids_of(&categories(&conn)), order);
            }
            7 if !cats.is_empty() => {
                let gone = cats[dice.roll(cats.len())].clone();
                remove_category(&mut conn, &gone).unwrap();
                assert_eq!(memos(&conn, &gone).members.len(), 0);
                let left: Vec<String> = cats.iter().filter(|c| **c != gone).cloned().collect();
                assert_eq!(ids_of(&categories(&conn)), left);
            }
            _ => {}
        }
        assert_every_scope_dense(&conn, step);
    }
}

#[test]
fn every_scope_stays_dense_through_a_long_history() {
    run_history(1, 300);
}

#[test]
fn every_scope_stays_dense_through_other_histories() {
    for seed in 2..12 {
        run_history(seed * 7919, 60);
    }
}
