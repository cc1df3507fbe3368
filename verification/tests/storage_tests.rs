use extract_lector::mysqldb::usernotfound::UserNotFound;
use extract_lector::mysqldb::{new_mysql_db, PersistentStorage, UserSex};

#[test]
fn lookup_finds_the_known_user() {
    let db = new_mysql_db(15);
    let user = db.get_user_by_id(1).unwrap();
    assert_eq!(user.id, 1);
    assert_eq!(user.name, "Aleksander");
    assert_eq!(user.sex, UserSex::Male);
}

#[test]
fn lookup_of_unknown_id_fails() {
    let db = new_mysql_db(15);
    assert!(matches!(db.get_user_by_id(2), Err(UserNotFound)));
    assert!(matches!(db.get_user_by_id(0), Err(UserNotFound)));
}

#[test]
fn all_users_holds_the_single_record() {
    let db = new_mysql_db(1);
    let users = db.get_all_users();
    assert_eq!(users.len(), 1);
    assert_eq!(users[0].id, 1);
    assert_eq!(users[0].name, "Aleksander");
}
