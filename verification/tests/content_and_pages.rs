//! The content store, the guarded administrative surface around it, and
//! the rendered landing pages.

use wiedzieliscie_backend::content::{
    admin_characters_add, admin_characters_get, admin_game_pause, admin_quests_stages_add,
    report_error, CharacterAddData, CharacterGetData, ContentStore, GamePauseData,
    QuestStageAddData, QuestStageContent, ReportData,
};
use wiedzieliscie_backend::pages::{
    get_delete_user_page, get_email_update_page, get_password_reset_page, get_verification_page,
};
use wiedzieliscie_backend::system::{AuthSystem, LoginData, RegisterData};
use wiedzieliscie_backend::AuthError;

const SECRET: &str = "c2VjcmV0";

fn system_with_user() -> (AuthSystem, String) {
    let mut sys = AuthSystem::new(SECRET.to_string());
    let reg = RegisterData {
        email: "ada@example.com".to_string(),
        plaintext_password: "pw1".to_string(),
        first_name: "Ada".to_string(),
        last_name: "Lovelace".to_string(),
        gender: 'f',
    };
    let (_, token) = sys.begin_registration(&reg, 1000).unwrap();
    sys.confirm_registration(&token, 1000).unwrap();
    let login = LoginData {
        email: "ada@example.com".to_string(),
        plaintext_password: "pw1".to_string(),
    };
    let jwt = sys.login(&login, false, 1000).unwrap();
    (sys, jwt)
}

#[test]
fn characters_create_get_delete() {
    let mut content = ContentStore::new();
    let id = content
        .create_character(
            "Guide".to_string(),
            "short".to_string(),
            "full".to_string(),
            "guide.png".to_string(),
        )
        .unwrap();
    assert_eq!(id, 1);
    let all = content.get_all_characters();
    assert_eq!(all.len(), 1);
    assert_eq!(all[0].name, "Guide");
    let one = content.get_character(id).unwrap();
    assert_eq!(one.short_desc, "short");
    content.delete_character(id);
    assert!(content.get_character(id).is_none());
    assert_eq!(content.get_all_characters().len(), 0);
    // Ids keep counting up after a delete.
    let id2 = content
        .create_character("B".to_string(), "s".to_string(), "f".to_string(), "b".to_string())
        .unwrap();
    assert_eq!(id2, 2);
}

#[test]
fn dialogues_with_parts() {
    let mut content = ContentStore::new();
    let d1 = content.create_dialogue(Some(7), "intro".to_string(), true).unwrap();
    let d2 = content.create_dialogue(None, "loose".to_string(), false).unwrap();
    assert_eq!((d1, d2), (1, 2));

    // An empty line list is refused.
    assert_eq!(
        content.set_dialogue_parts(d1, &Vec::new()),
        Err(AuthError::InternalError)
    );
    let parts = vec![(5u32, "Hello".to_string()), (6u32, "World".to_string())];
    assert_eq!(content.set_dialogue_parts(d1, &parts), Ok(()));

    let got = content.get_dialogue_parts(d1);
    assert_eq!(got.len(), 2);
    assert_eq!(got[0].part_id, 0);
    assert_eq!(got[0].character_id, 5);
    assert_eq!(got[0].text, "Hello");
    assert_eq!(got[1].part_id, 1);
    assert_eq!(got[1].character_id, 6);
    assert_eq!(got[1].text, "World");

    // Only the quest-free dialogue counts as unused.
    let unused = content.get_unused_dialogues();
    assert_eq!(unused.len(), 1);
    assert_eq!(unused[0].dialogue_id, d2);

    content.delete_dialogue(d1);
    content.delete_dialogue_parts(d1);
    assert_eq!(content.get_all_dialogues().len(), 1);
    assert_eq!(content.get_dialogue_parts(d1).len(), 0);
}

#[test]
fn game_state_flags() {
    let mut content = ContentStore::new();
    assert!(content.is_paused());
    assert!(content.get_pause().paused);
    content.game_set_state(false);
    assert!(!content.is_paused());
    content.game_set_tutorial(3);
    content.game_set_state(true);
    assert!(content.get_pause().paused);
}

#[test]
fn reports_are_stored_in_order() {
    let mut content = ContentStore::new();
    content.add_error("crash".to_string(), "on login".to_string());
    content.add_error("typo".to_string(), "in intro".to_string());
    content.add_suggestion("idea".to_string(), "more quests".to_string());
    let reports = content.get_reports();
    assert_eq!(reports.len(), 2);
    assert_eq!(reports[0].title, "crash");
    assert_eq!(reports[1].title, "typo");
}

#[test]
fn admin_surface_rejects_non_admins() {
    let (sys, jwt) = system_with_user();
    let mut content = ContentStore::new();
    let add = CharacterAddData {
        jwt: jwt.clone(),
        name: "G".to_string(),
        short_description: "s".to_string(),
        full_description: "f".to_string(),
        image: "i".to_string(),
    };
    assert_eq!(
        admin_characters_add(&sys, &mut content, &add, 1001),
        Err(AuthError::NotAdmin)
    );
    assert_eq!(content.get_all_characters().len(), 0);
    assert!(matches!(
        admin_characters_get(&sys, &content, &CharacterGetData { jwt: jwt.clone() }, 1001),
        Err(AuthError::NotAdmin)
    ));
    assert_eq!(
        admin_game_pause(&sys, &mut content, &GamePauseData { jwt: "junk".to_string() }, 1001),
        Err(AuthError::InvalidToken)
    );
}

#[test]
fn player_reports_go_through_the_session_guard() {
    let (sys, jwt) = system_with_user();
    let mut content = ContentStore::new();
    let report = ReportData {
        jwt: jwt.clone(),
        title: "crash".to_string(),
        message: "on login".to_string(),
    };
    assert_eq!(report_error(&sys, &mut content, &report, 1001), Ok(()));
    assert_eq!(content.get_reports().len(), 1);
    let bad = ReportData {
        jwt: "junk".to_string(),
        title: "x".to_string(),
        message: "y".to_string(),
    };
    assert_eq!(
        report_error(&sys, &mut content, &bad, 1001),
        Err(AuthError::InvalidToken)
    );
}

#[test]
fn pages_render_the_exact_skeleton() {
    let expected = format!(
        "<head>\n<meta charset=\"utf-8\" />\n<title>{}</title>\n</head>\n<body style=\"background-color: black; color: white;\">\n<div style=\"display: flex; justify-content: center; align-items: center; text-align: center; min-height: 100vh; flex-direction: column\">\n<h1>{}</h1>\n<p>{}</p>\n</div>\n</body>\n",
        "WiedzieLISCIE verification", "Verification successful", "You can now close this page"
    );
    assert_eq!(
        get_verification_page("Verification successful", "You can now close this page"),
        expected
    );
    assert!(get_password_reset_page("a", "b").contains("WiedzieLISCIE password reset"));
    assert!(get_email_update_page("a", "b").contains("WiedzieLISCIE email update"));
    assert!(get_delete_user_page("a", "b").contains("WiedzieLISCIE account deletion"));
    assert!(get_delete_user_page("Done", "Bye").contains("<h1>Done</h1>"));
    assert!(get_delete_user_page("Done", "Bye").contains("<p>Bye</p>"));
}

#[test]
fn quest_stages_add_get_reorder_delete() {
    let mut content = ContentStore::new();
    let intro = content.create_dialogue(Some(9), "intro".to_string(), true).unwrap();

    // Stages number up from one, per quest.
    assert_eq!(content.next_quest_stage_id(9), Ok(1));
    assert_eq!(content.add_quest_stage(9, QuestStageContent::Task(5)), Ok(1));
    assert_eq!(content.add_quest_stage(9, QuestStageContent::Dialogue(intro)), Ok(2));
    assert_eq!(content.add_quest_stage(4, QuestStageContent::Task(7)), Ok(1));
    assert_eq!(content.next_quest_stage_id(9), Ok(3));

    let stages = content.get_all_quest_stages(9);
    assert_eq!(stages.len(), 2);
    assert_eq!(stages[0].stage_id, 1);
    assert_eq!(stages[0].content_id, 5);
    assert_eq!(stages[0].stage_type, "task");
    assert_eq!(stages[0].name, "");
    assert_eq!(stages[1].stage_id, 2);
    assert_eq!(stages[1].content_id, intro);
    assert_eq!(stages[1].stage_type, "dialogue");
    assert_eq!(stages[1].name, "intro");

    // Moving the first stage forward exchanges positions one and two,
    // within this quest only.
    content.change_quest_stage_id_forward(9, 1);
    let stages = content.get_all_quest_stages(9);
    assert_eq!(stages[0].stage_id, 2);
    assert_eq!(stages[0].stage_type, "task");
    assert_eq!(stages[1].stage_id, 1);
    assert_eq!(stages[1].stage_type, "dialogue");
    let other = content.get_all_quest_stages(4);
    assert_eq!(other[0].stage_id, 1);

    // And moving it back restores the order.
    content.change_quest_stage_id_back(9, 2);
    let stages = content.get_all_quest_stages(9);
    assert_eq!(stages[0].stage_id, 1);
    assert_eq!(stages[0].stage_type, "task");

    content.delete_quest_stage(9, 1);
    let stages = content.get_all_quest_stages(9);
    assert_eq!(stages.len(), 1);
    assert_eq!(stages[0].stage_type, "dialogue");
}

#[test]
fn quest_stage_admin_surface_is_guarded() {
    let (sys, jwt) = system_with_user();
    let mut content = ContentStore::new();
    let add = QuestStageAddData { jwt, quest_id: 9, task_id: Some(5), dialogue_id: None };
    assert_eq!(
        admin_quests_stages_add(&sys, &mut content, &add, 1001),
        Err(AuthError::NotAdmin)
    );
    assert_eq!(content.get_all_quest_stages(9).len(), 0);
}
