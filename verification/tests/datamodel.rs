use xt_gateway::datamodel::{IntoPlayerGistString, PlayerGist, PlayerPuffleGist};

#[test]
fn test_player_gist_real() {
    let player_gist = PlayerGist {
        id: 102,
        nickname: "Kirill".to_owned(),
        approval: false,
        color: 1,
        head: 429,
        face: 0,
        neck: 0,
        body: 0,
        hand: 0,
        feet: 0,
        flag: 0,
        photo: 0,
        x: 0,
        y: 0,
        frame: 1,
        member: true,
        membership_days: 9,
        avatar: 0,
        puffle_state: PlayerPuffleGist {},
    };
    assert_eq!(
        player_gist.into_gist_string(),
        "102|Kirill|0|1|429|0|0|0|0|0|0|0|0|0|1|1|9|0|0|0|||||"
    )
}

#[test]
fn gist_writes_every_field_in_its_place() {
    let gist = PlayerGist {
        id: 7,
        nickname: "Åsa".to_owned(),
        approval: true,
        color: 2,
        head: 3,
        face: 4,
        neck: 5,
        body: 6,
        hand: 8,
        feet: 9,
        flag: 10,
        photo: 11,
        x: -12,
        y: 13,
        frame: 255,
        member: false,
        membership_days: 4000000000,
        avatar: 14,
        puffle_state: PlayerPuffleGist {},
    };
    assert_eq!(
        gist.duplicate().into_gist_string(),
        "7|Åsa|1|2|3|4|5|6|8|9|10|11|-12|13|255|0|4000000000|14|0|0|||||"
    );
    assert_eq!(gist.duplicate(), gist);
}
