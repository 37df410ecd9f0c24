use ws_demo::cities::random_city;
use ws_demo::greeting;
use ws_demo::users::{create_user, register, user_to_json, CreateUser, User, DEFAULT_USER_ID};

#[test]
fn created_user_keeps_username_and_fixed_id() {
    let user = create_user(CreateUser { username: String::from("alice") });
    assert_eq!(user.id, DEFAULT_USER_ID);
    assert_eq!(user.username, "alice");
    let body = user_to_json(&user);
    assert!(body.contains("\"username\":\"alice\""));
}

#[test]
fn user_json_is_exact() {
    let user = User { id: 13337, username: String::from("alice"), city: String::from("Porto") };
    assert_eq!(
        user_to_json(&user),
        "{\"id\":13337,\"username\":\"alice\",\"city\":\"Porto\"}"
    );
}

#[test]
fn user_json_escapes_fields() {
    let user = User { id: 0, username: String::from("a\"b"), city: String::from("x\\y") };
    assert_eq!(
        user_to_json(&user),
        "{\"id\":0,\"username\":\"a\\\"b\",\"city\":\"x\\\\y\"}"
    );
}

#[test]
fn user_json_is_valid_json() {
    let user = User { id: 42, username: String::from("bob"), city: String::from("Quito") };
    let v: serde_json::Value = serde_json::from_str(&user_to_json(&user)).unwrap();
    assert_eq!(v["id"].as_u64(), Some(42));
    assert_eq!(v["username"].as_str(), Some("bob"));
    assert_eq!(v["city"].as_str(), Some("Quito"));
}

#[test]
fn register_issues_distinct_tokens() {
    let (user1, token1) = register();
    let (user2, token2) = register();
    assert_ne!(token1, token2);
    assert_eq!(token1.len(), 36);
    assert_eq!(token2.len(), 36);
    assert_eq!(user1.username, "Demo");
    assert_eq!(user2.username, "Demo");
}

#[test]
fn greeting_is_fixed() {
    assert_eq!(greeting(), "Hello, World!");
}

#[test]
fn random_city_comes_from_the_list() {
    let cities = ["Amsterdam", "Berlin", "Lisbon", "Nairobi", "Osaka", "Porto", "Quito", "Seattle"];
    for _ in 0..10 {
        let city = random_city();
        assert!(cities.contains(&city.as_str()));
    }
}
