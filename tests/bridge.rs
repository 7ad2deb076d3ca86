use whitenoise_wallet::bridge::{
    CdkWallet, ChatMessageData, EmojiReactionData, MessageWithTokensData, MetadataData,
    ReactionSummaryData, SerializableTokenData, UserReactionData, WhitenoiseConfigData,
};

fn pair(k: &str, v: &str) -> (String, String) {
    (k.to_string(), v.to_string())
}

#[test]
fn custom_metadata_round_trips() {
    let mut metadata = MetadataData::empty();
    assert!(metadata.get_custom().is_empty());
    metadata.name = Some("alice".to_string());
    metadata.set_custom(vec![pair("theme", "dark"), pair("lang", "en")]);
    let mut custom = metadata.get_custom();
    custom.sort();
    assert_eq!(custom, vec![pair("lang", "en"), pair("theme", "dark")]);
    assert_eq!(metadata.name.as_deref(), Some("alice"));
}

#[test]
fn later_custom_value_wins() {
    let mut metadata = MetadataData::empty();
    metadata.set_custom(vec![pair("k", "1"), pair("j", "2"), pair("k", "3")]);
    let mut custom = metadata.get_custom();
    custom.sort();
    assert_eq!(custom, vec![pair("j", "2"), pair("k", "3")]);
    metadata.set_custom(vec![]);
    assert!(metadata.get_custom().is_empty());
}

#[test]
fn plain_records_hold_their_fields() {
    let _wallet = CdkWallet::new();
    let config = WhitenoiseConfigData { data_dir: "/d".to_string(), logs_dir: "/l".to_string() };
    assert_eq!(config.clone().logs_dir, "/l");
    let token = SerializableTokenData { token_type: "LineBreak".to_string(), content: None };
    let reactions = ReactionSummaryData {
        by_emoji: vec![EmojiReactionData { emoji: "+".to_string(), count: 2, users: vec!["ab".to_string(), "cd".to_string()] }],
        user_reactions: vec![UserReactionData { user: "ab".to_string(), emoji: "+".to_string(), created_at: 5 }],
    };
    let chat = ChatMessageData {
        id: "m".to_string(),
        pubkey: "ab".to_string(),
        content: "hi".to_string(),
        created_at: 9,
        tags: vec![],
        is_reply: false,
        reply_to_id: None,
        is_deleted: false,
        content_tokens: vec![token],
        reactions,
        kind: 9,
    };
    assert_eq!(chat.reactions.by_emoji[0].count, 2);
    let message = MessageWithTokensData {
        id: "m".to_string(),
        pubkey: "ab".to_string(),
        kind: 9,
        created_at: 9,
        content: Some("hi".to_string()),
        tokens: vec!["Text(\"hi\")".to_string()],
    };
    assert_eq!(message.tokens.len(), 1);
}
