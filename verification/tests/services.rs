use ficant_application::services::{
    CalculateBondAnalytics, CalculateBondKeyRateDv01, MaterializeRegisteredFuturesDelivery, PositionViewsUseCase, PublishBondAnalytics,
    ReplayFuturesDelivery,
};

#[test]
fn services_are_built_from_their_ports() {
    let calculate = CalculateBondAnalytics::new("engine");
    assert!(format!("{calculate:?}").contains("engine"));
    let publish = PublishBondAnalytics::new(1u8, 2u8, 3u8, 4u8);
    assert!(format!("{publish:?}").contains("artifacts: 4"));
    let replay = ReplayFuturesDelivery::new("e", "c", "a", "r", "i");
    assert!(format!("{replay:?}").contains("integrity_events: \"i\""));
    let materialize = MaterializeRegisteredFuturesDelivery::new(1, 2, 3, 4, 5, 6);
    assert!(format!("{materialize:?}").contains("parser: 6"));
    let views = PositionViewsUseCase::new(vec![1, 2]);
    assert!(format!("{views:?}").contains("repository: [1, 2]"));
    let plain = CalculateBondKeyRateDv01::<u8, u8, u8, u8, u8, u8, u8, u8, u8, u8, u8, u8, u8>::new(1, 2, 3, 4, 5, 6, 7, 8, 9);
    assert!(format!("{plain:?}").contains("futures_engine: None"));
    let with_futures = CalculateBondKeyRateDv01::new_with_futures(1, 2, 3, 4, 5, 6, 7, 8, 9, 10, 11, 12, 13);
    assert!(format!("{with_futures:?}").contains("futures_engine: Some(13)"));
}
