use chrono::Utc;
use mail_engine::auth::rbac::{
    can_change_password, can_create_user, can_delete_user, can_list_users, can_modify_user,
    can_view_user,
};
use mail_engine::entities::user;
use uuid::Uuid;

fn create_test_user(role: &str) -> user::Model {
    user::Model {
        id: Uuid::new_v4().as_u128(),
        email: format!("test_{}@example.com", role),
        password_hash: "hash".to_string(),
        name: Some(format!("Test {}", role)),
        role: role.to_string(),
        is_active: true,
        email_verified: true,
        created_at: Utc::now().naive_utc().and_utc().timestamp_millis(),
        updated_at: Utc::now().naive_utc().and_utc().timestamp_millis(),
    }
}

#[test]
fn test_admin_permissions() {
    let admin = create_test_user("admin");
    let user = create_test_user("user");

    assert!(can_create_user(&admin));
    assert!(can_delete_user(&admin, &user));
    assert!(can_modify_user(&admin, &user));
    assert!(can_change_password(&admin, &user));
    assert!(can_list_users(&admin));
    assert!(can_view_user(&admin, &user));
}

#[test]
fn test_user_permissions() {
    let user1 = create_test_user("user");
    let user2 = create_test_user("user");

    assert!(!can_create_user(&user1));
    assert!(!can_delete_user(&user1, &user2));
    assert!(!can_modify_user(&user1, &user2));
    assert!(!can_change_password(&user1, &user2));
    assert!(!can_list_users(&user1));
    assert!(!can_view_user(&user1, &user2));

    // Users can modify themselves
    assert!(can_modify_user(&user1, &user1));
    assert!(can_change_password(&user1, &user1));
    assert!(can_view_user(&user1, &user1));
}
