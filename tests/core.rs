use parkinsons_pulse_service::dto::{foo, CaregiverTokenPath, CreateUserBody};
use parkinsons_pulse_service::model::{
    CoreError, Event, FreeFormQuestion, Form, MultichoiceQuestion, MultichoiceQuestionOption, Question,
    QuestionAndAnswer, QuestionEdited, User,
};
use parkinsons_pulse_service::recency::{recency, Symptom, RECENT_WINDOW_MILLIS};
use parkinsons_pulse_service::registry::Registry;
use parkinsons_pulse_service::tokens::{CaregiverToken, TokenStore, TOKEN_LENGTH, TOKEN_VALIDITY_MILLIS};

const HOUR: i64 = 3_600_000;
const MINUTE: i64 = 60_000;
const T0: i64 = 1_700_000_000_000;

fn user(id: u128, name: &str) -> User {
    User::from(
        id,
        name.to_string(),
        "Doe".to_string(),
        format!("{}@example.org", name),
        "hash".to_string(),
        true,
    )
}

fn free_form_question(title: &str) -> Question {
    Question::FreeForm(FreeFormQuestion { id: Some(900), title: title.to_string(), max_length: 200, min_length: 0 })
}

fn form(id: u128, owner: u128, title: &str) -> Form {
    Form::assemble(id, title.to_string(), None, owner, owner, T0, vec![free_form_question("How are you?")])
}

fn registry_with(ids: &[(u128, &str)]) -> Registry {
    let mut reg = Registry::new();
    for (id, name) in ids {
        reg.register(user(*id, name)).unwrap();
    }
    reg
}

fn store_token(reg: &mut Registry, text: &str, owner: u128, created_at: i64) {
    reg.tokens.insert(CaregiverToken::issued(text.to_string(), owner, created_at)).unwrap();
}

fn caregivers_of(reg: &Registry, id: u128) -> Vec<u128> {
    reg.find_user(id).unwrap().caregivers.clone()
}

fn answer(text: &str) -> Vec<QuestionAndAnswer> {
    vec![QuestionAndAnswer::FreeForm(900, text.to_string())]
}

#[test]
fn redeemed_token_cannot_be_redeemed_again() {
    let mut reg = registry_with(&[(1, "pat"), (2, "cara")]);
    store_token(&mut reg, "abc123", 1, T0);
    assert_eq!(reg.redeem_invitation(2, &"abc123".to_string(), T0 + HOUR), Ok(()));
    assert_eq!(reg.redeem_invitation(2, &"abc123".to_string(), T0 + HOUR), Err(CoreError::NotFound));
    assert_eq!(reg.redeem_invitation(3, &"abc123".to_string(), T0 + HOUR), Err(CoreError::NotFound));
}

#[test]
fn token_store_redeem_hands_out_once() {
    let mut store = TokenStore::new();
    store.insert(CaregiverToken::issued("qwe".to_string(), 5, T0)).unwrap();
    let t = store.redeem(&"qwe".to_string(), T0).unwrap();
    assert_eq!(t.user_id, 5);
    assert_eq!(t.expired_by, T0 + TOKEN_VALIDITY_MILLIS);
    assert!(store.redeem(&"qwe".to_string(), T0).is_none());
    assert!(store.tokens.is_empty());
}

#[test]
fn expired_token_is_not_redeemed_even_without_purge() {
    let mut store = TokenStore::new();
    store.insert(CaregiverToken::issued("old".to_string(), 5, T0)).unwrap();
    let expiry = T0 + TOKEN_VALIDITY_MILLIS;
    assert!(store.redeem(&"old".to_string(), expiry + 1).is_none());
    assert_eq!(store.tokens.len(), 1);
    // the expiry instant itself is still valid
    assert!(store.redeem(&"old".to_string(), expiry).is_some());
}

#[test]
fn expired_invitation_fails_with_not_found_and_is_purged() {
    let mut reg = registry_with(&[(1, "pat"), (2, "cara")]);
    store_token(&mut reg, "stale", 1, T0);
    store_token(&mut reg, "fresh", 1, T0 + 3 * 24 * HOUR);
    let later = T0 + TOKEN_VALIDITY_MILLIS + MINUTE;
    assert_eq!(reg.redeem_invitation(2, &"stale".to_string(), later), Err(CoreError::NotFound));
    assert_eq!(reg.tokens.tokens.len(), 1);
    assert_eq!(reg.tokens.tokens[0].token, "fresh");
    assert!(caregivers_of(&reg, 1).is_empty());
}

#[test]
fn purge_counts_removed_tokens() {
    let mut store = TokenStore::new();
    store.insert(CaregiverToken::issued("a".to_string(), 1, T0)).unwrap();
    store.insert(CaregiverToken::issued("b".to_string(), 1, T0 + 10 * 24 * HOUR)).unwrap();
    store.insert(CaregiverToken::issued("c".to_string(), 2, T0 - HOUR)).unwrap();
    assert_eq!(store.purge_expired(T0 + 4 * 24 * HOUR), 2);
    assert_eq!(store.tokens.len(), 1);
    assert_eq!(store.tokens[0].token, "b");
    assert_eq!(store.purge_expired(T0 + 4 * 24 * HOUR), 0);
}

#[test]
fn duplicate_token_text_is_refused() {
    let mut store = TokenStore::new();
    store.insert(CaregiverToken::issued("dup".to_string(), 1, T0)).unwrap();
    let r = store.insert(CaregiverToken::issued("dup".to_string(), 2, T0));
    assert_eq!(r, Err(CoreError::StorageFailure));
    assert_eq!(store.tokens.len(), 1);
    assert_eq!(store.tokens[0].user_id, 1);
}

#[test]
fn expiry_saturates_at_the_latest_instant() {
    let t = CaregiverToken::issued("x".to_string(), 1, i64::MAX - 5);
    assert_eq!(t.expired_by, i64::MAX);
}

#[test]
fn self_link_is_rejected_and_consumes_the_token() {
    let mut reg = registry_with(&[(1, "pat")]);
    store_token(&mut reg, "mine", 1, T0);
    assert_eq!(reg.redeem_invitation(1, &"mine".to_string(), T0), Err(CoreError::InvalidRelationship));
    assert!(reg.tokens.tokens.is_empty());
    assert!(caregivers_of(&reg, 1).is_empty());
    assert_eq!(reg.redeem_invitation(1, &"mine".to_string(), T0), Err(CoreError::NotFound));
}

#[test]
fn second_invitation_does_not_duplicate_caregiver() {
    let mut reg = registry_with(&[(1, "pat"), (2, "cara")]);
    store_token(&mut reg, "one", 1, T0);
    store_token(&mut reg, "two", 1, T0);
    assert_eq!(reg.redeem_invitation(2, &"one".to_string(), T0), Ok(()));
    assert_eq!(reg.redeem_invitation(2, &"two".to_string(), T0), Ok(()));
    assert_eq!(caregivers_of(&reg, 1), vec![2]);
}

#[test]
fn removing_absent_caregiver_changes_nothing() {
    let mut reg = registry_with(&[(1, "pat"), (2, "cara"), (3, "other")]);
    store_token(&mut reg, "tok", 1, T0);
    reg.redeem_invitation(2, &"tok".to_string(), T0).unwrap();
    reg.remove_relationship(1, 3);
    assert_eq!(caregivers_of(&reg, 1), vec![2]);
    reg.remove_relationship(9, 2);
    assert_eq!(caregivers_of(&reg, 1), vec![2]);
    reg.remove_relationship(1, 2);
    assert!(caregivers_of(&reg, 1).is_empty());
    reg.remove_relationship(1, 2);
    assert!(caregivers_of(&reg, 1).is_empty());
}

#[test]
fn invitation_for_missing_owner_succeeds_without_change() {
    let mut reg = registry_with(&[(2, "cara")]);
    store_token(&mut reg, "ghost", 7, T0);
    assert_eq!(reg.redeem_invitation(2, &"ghost".to_string(), T0), Ok(()));
    assert!(reg.tokens.tokens.is_empty());
    assert!(caregivers_of(&reg, 2).is_empty());
}

#[test]
fn list_all_forms_covers_own_and_patients_forms_only() {
    let mut reg = registry_with(&[(1, "pat"), (2, "cara"), (3, "stranger"), (4, "pat2")]);
    store_token(&mut reg, "t1", 1, T0);
    store_token(&mut reg, "t4", 4, T0);
    reg.redeem_invitation(2, &"t1".to_string(), T0).unwrap();
    reg.redeem_invitation(2, &"t4".to_string(), T0).unwrap();
    reg.create_form(form(10, 1, "Tremors")).unwrap();
    reg.create_form(form(11, 3, "Secret")).unwrap();
    reg.create_form(form(12, 2, "Own")).unwrap();
    reg.create_form(form(13, 4, "Sleep")).unwrap();
    reg.create_form(form(14, 1, "Mood")).unwrap();
    let ids: Vec<u128> = reg.list_all_forms(2).iter().map(|f| f.id).collect();
    assert_eq!(ids, vec![12, 10, 14, 13]);
    let own: Vec<u128> = reg.list_all_forms(1).iter().map(|f| f.id).collect();
    assert_eq!(own, vec![10, 14]);
    let stranger: Vec<u128> = reg.list_all_forms(3).iter().map(|f| f.id).collect();
    assert_eq!(stranger, vec![11]);
    assert_eq!(reg.patients_of(2), vec![1, 4]);
}

#[test]
fn duplicate_form_id_is_refused() {
    let mut reg = registry_with(&[(1, "pat")]);
    reg.create_form(form(10, 1, "Tremors")).unwrap();
    assert_eq!(reg.create_form(form(10, 1, "Again")), Err(CoreError::StorageFailure));
    assert_eq!(reg.forms.len(), 1);
}

#[test]
fn duplicate_user_id_is_refused() {
    let mut reg = registry_with(&[(1, "pat")]);
    assert_eq!(reg.register(user(1, "again")), Err(CoreError::StorageFailure));
    assert_eq!(reg.users.len(), 1);
}

#[test]
fn registration_starts_without_caregivers() {
    let mut reg = Registry::new();
    let mut u = user(1, "pat");
    u.caregivers = vec![5, 6];
    reg.register(u).unwrap();
    assert!(caregivers_of(&reg, 1).is_empty());
}

#[test]
fn recency_boundary_at_thirty_six_hours() {
    let now = T0;
    assert!(recency(now - (35 * HOUR + 59 * MINUTE), now).1);
    assert!(!recency(now - (36 * HOUR + MINUTE), now).1);
    assert!(!recency(now - 36 * HOUR, now).1);
    assert!(recency(now - 36 * HOUR + 1, now).1);
    assert_eq!(RECENT_WINDOW_MILLIS, 36 * HOUR);
}

#[test]
fn recency_status_text() {
    let now = T0;
    assert_eq!(recency(now - (35 * HOUR + 59 * MINUTE), now).0, "a day ago");
    assert_eq!(recency(now - (36 * HOUR + MINUTE), now).0, "2 days ago");
    assert_eq!(recency(now - 3 * 24 * HOUR, now).0, "3 days ago");
    assert_eq!(recency(now, now).0, "now");
    assert_eq!(recency(now + 2 * HOUR, now).0, "in 2 hours");
}

#[test]
fn recency_with_extreme_span_does_not_panic() {
    let r = recency(i64::MIN, i64::MAX);
    assert!(!r.1);
    assert!(r.0.ends_with("ago"));
}

#[test]
fn symptom_of_form_never_submitted() {
    let f = form(10, 1, "Tremors");
    let s = Symptom::of(&f, T0);
    assert_eq!(s.status, "Never updated");
    assert!(!s.recently_completed);
    assert_eq!(s.title, "Tremors");
    assert_eq!(s.id, 10);
}

#[test]
fn symptom_uses_latest_submission_and_ignores_edits() {
    let mut f = form(10, 1, "Tremors");
    f.events.push(Event::FormSubmitted(parkinsons_pulse_service::model::FormSubmitted {
        answers: answer("a"),
        submitted_by: 1,
        submitted_at: T0 - 50 * HOUR,
    }));
    f.events.push(Event::FormSubmitted(parkinsons_pulse_service::model::FormSubmitted {
        answers: answer("b"),
        submitted_by: 1,
        submitted_at: T0 - HOUR,
    }));
    f.events.push(Event::FormSubmitted(parkinsons_pulse_service::model::FormSubmitted {
        answers: answer("c"),
        submitted_by: 1,
        submitted_at: T0 - 100 * HOUR,
    }));
    f.events.push(Event::QuestionEdited(QuestionEdited {
        question_id: 900,
        former_question: free_form_question("How are you?"),
        new_question: free_form_question("How do you feel?"),
        edited_by: 1,
        edited_at: T0,
    }));
    let s = Symptom::of(&f, T0);
    assert!(s.recently_completed);
    assert_eq!(s.status, "an hour ago");
    let t = Symptom::with_age_text(&f, T0, "just then".to_string());
    assert_eq!(t.status, "just then");
    assert!(t.recently_completed);
}

#[test]
fn submission_history_is_newest_first_and_own_only() {
    let mut reg = registry_with(&[(1, "pat"), (2, "cara")]);
    store_token(&mut reg, "t", 1, T0);
    reg.redeem_invitation(2, &"t".to_string(), T0).unwrap();
    reg.create_form(form(10, 1, "Tremors")).unwrap();
    reg.create_form(form(11, 1, "Sleep")).unwrap();
    reg.create_form(form(12, 2, "Own")).unwrap();
    reg.append_submission(10, 1, answer("x"), 1, T0 + 5).unwrap();
    reg.append_submission(11, 1, answer("y"), 1, T0 + 9).unwrap();
    reg.append_submission(10, 1, answer("z"), 1, T0 + 1).unwrap();
    reg.append_submission(11, 1, answer("w"), 1, T0 + 5).unwrap();
    reg.append_submission(12, 2, answer("v"), 2, T0 + 7).unwrap();
    let hist = reg.submission_history(1);
    let times: Vec<i64> = hist.iter().map(|e| e.submitted_at()).collect();
    assert_eq!(times, vec![T0 + 9, T0 + 5, T0 + 5, T0 + 1]);
    let forms: Vec<u128> = hist.iter().map(|e| e.form.id).collect();
    assert_eq!(forms, vec![11, 10, 11, 10]);
    assert_eq!(hist[0].form.title, "Sleep");
    assert_eq!(reg.submission_history(2).len(), 1);
}

#[test]
fn submission_to_foreign_form_is_bad_request() {
    let mut reg = registry_with(&[(1, "pat"), (2, "cara")]);
    reg.create_form(form(10, 1, "Tremors")).unwrap();
    assert_eq!(reg.append_submission(10, 2, answer("x"), 2, T0), Err(CoreError::BadRequest));
    assert_eq!(reg.append_submission(99, 1, answer("x"), 1, T0), Err(CoreError::BadRequest));
    assert!(reg.forms[0].events.is_empty());
}

#[test]
fn find_form_hides_other_owners() {
    let mut reg = registry_with(&[(1, "pat"), (2, "cara"), (3, "stranger")]);
    store_token(&mut reg, "t", 1, T0);
    reg.redeem_invitation(2, &"t".to_string(), T0).unwrap();
    reg.create_form(form(10, 1, "Tremors")).unwrap();
    assert!(reg.find_form(1, 10).is_some());
    assert!(reg.find_form(2, 10).is_none());
    assert!(reg.readable_form(1, 10).is_some());
    assert!(reg.readable_form(2, 10).is_some());
    assert!(reg.readable_form(3, 10).is_none());
    assert!(reg.readable_form(1, 99).is_none());
}

#[test]
fn list_caregivers_gives_summaries() {
    let mut reg = registry_with(&[(1, "pat"), (2, "cara"), (3, "carl")]);
    store_token(&mut reg, "a", 1, T0);
    store_token(&mut reg, "b", 1, T0);
    reg.redeem_invitation(3, &"a".to_string(), T0).unwrap();
    reg.redeem_invitation(2, &"b".to_string(), T0).unwrap();
    let list = reg.list_caregivers(1).unwrap();
    let names: Vec<String> = list.iter().map(|s| s.first_name.clone()).collect();
    assert_eq!(names, vec!["carl".to_string(), "cara".to_string()]);
    assert_eq!(list[0].email_address, "carl@example.org");
    assert!(reg.list_caregivers(2).unwrap().is_empty());
    assert_eq!(reg.list_caregivers(42).unwrap_err(), CoreError::NotFound);
}

#[test]
fn minted_token_is_lowercase_alphanumeric_and_redeemable() {
    let mut reg = registry_with(&[(1, "pat"), (2, "cara")]);
    let text = reg.mint(1).unwrap();
    assert_eq!(text.len(), TOKEN_LENGTH);
    assert!(text.chars().all(|c| c.is_ascii_lowercase() || c.is_ascii_digit()));
    let t = &reg.tokens.tokens[0];
    assert_eq!(t.user_id, 1);
    assert_eq!(t.expired_by, t.created_at + TOKEN_VALIDITY_MILLIS);
    let now = t.created_at;
    assert_eq!(reg.redeem_invitation(2, &text, now), Ok(()));
    assert_eq!(caregivers_of(&reg, 1), vec![2]);
}

#[test]
fn end_to_end_invitation_and_symptom_status() {
    let mut reg = registry_with(&[(1, "pat"), (2, "cara")]);
    store_token(&mut reg, "abc123", 1, T0);
    let path = CaregiverTokenPath { token: "abc123".to_string() };
    reg.redeem_invitation(2, &path.token, T0 + MINUTE).unwrap();
    assert_eq!(caregivers_of(&reg, 1), vec![2]);
    reg.create_form(form(10, 1, "Tremors")).unwrap();
    let t1 = T0 + 2 * HOUR;
    reg.append_submission(10, 1, answer("ok"), 1, t1).unwrap();
    let now = t1 + 3 * HOUR;
    let status = reg.symptom_status(2, now);
    assert_eq!(status.len(), 1);
    assert_eq!(status[0].id, 10);
    assert_eq!(status[0].title, "Tremors");
    assert!(status[0].recently_completed);
    assert_eq!(status[0].status, "3 hours ago");
}

#[test]
fn end_to_end_two_tokens_first_expires() {
    let mut reg = registry_with(&[(1, "pat"), (2, "cara")]);
    store_token(&mut reg, "first", 1, T0);
    store_token(&mut reg, "second", 1, T0 + HOUR);
    assert_eq!(reg.redeem_invitation(2, &"second".to_string(), T0 + 2 * HOUR), Ok(()));
    assert_eq!(caregivers_of(&reg, 1), vec![2]);
    let past_expiry = T0 + TOKEN_VALIDITY_MILLIS + 1;
    assert_eq!(reg.redeem_invitation(2, &"first".to_string(), past_expiry), Err(CoreError::NotFound));
    assert_eq!(caregivers_of(&reg, 1), vec![2]);
}

#[test]
fn create_user_body_builds_account() {
    let body = CreateUserBody {
        first_name: "Ann".to_string(),
        last_name: "Lee".to_string(),
        password: "plain".to_string(),
        email_address: "ann@example.org".to_string(),
        is_patient: false,
    };
    let u = body.into_user(7, "hashed".to_string());
    assert_eq!(u.id, 7);
    assert_eq!(u.hashed_password, "hashed");
    assert_eq!(u.first_name, "Ann");
    assert!(!u.is_patient);
    assert!(u.caregivers.is_empty());
    foo();
}

#[test]
fn form_from_gives_fresh_ids_to_questions_and_options() {
    let questions = vec![
        Question::Multichoice(MultichoiceQuestion {
            id: None,
            title: "How often?".to_string(),
            options: vec![
                MultichoiceQuestionOption { name: "Once".to_string(), id: None },
                MultichoiceQuestionOption { name: "Twice".to_string(), id: None },
            ],
            min_selected: 1,
            max_selected: 2,
        }),
        Question::FreeForm(FreeFormQuestion { id: None, title: "Anything else?".to_string(), max_length: 200, min_length: 0 }),
    ];
    let f = Form::from(10, "Tremors".to_string(), Some("weekly".to_string()), 1, 1, questions);
    assert_eq!(f.id, 10);
    assert_eq!(f.description.as_deref(), Some("weekly"));
    assert!(f.events.is_empty());
    assert_eq!(f.questions.len(), 2);
    let mut ids = Vec::new();
    match &f.questions[0] {
        Question::Multichoice(m) => {
            assert_eq!(m.title, "How often?");
            assert_eq!(m.options.len(), 2);
            assert_eq!(m.options[1].name, "Twice");
            ids.push(m.id.unwrap());
            for o in &m.options {
                ids.push(o.id.unwrap());
            }
        }
        _ => panic!("question kind changed"),
    }
    match &f.questions[1] {
        Question::FreeForm(q) => {
            assert_eq!(q.max_length, 200);
            ids.push(q.id.unwrap());
        }
        _ => panic!("question kind changed"),
    }
    let mut unique = ids.clone();
    unique.sort();
    unique.dedup();
    assert_eq!(unique.len(), ids.len());
    assert!(f.created_at > 1_600_000_000_000);
}
