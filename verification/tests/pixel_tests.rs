//! Tests of the pixel canvas: colors, positions, canvas state, the mutation
//! engine, ownership negotiation, and the notification log.

use quiz::pixel_abi::CanvasBounds;
use quiz::pixel_abi::CanvasInitialization;
use quiz::pixel_abi::Event;
use quiz::pixel_abi::Message;
use quiz::pixel_abi::NotificationError;
use quiz::pixel_abi::PixelColor;
use quiz::pixel_abi::Position;
use quiz::pixel_state::PixelChainState;
use quiz::ChainId;

#[test]
fn test_pixel_color_creation() {
    let color = PixelColor::new(255, 0, 0, 255);
    assert_eq!(color.red, 255);
    assert_eq!(color.green, 0);
    assert_eq!(color.blue, 0);
    assert_eq!(color.alpha, 255);
    assert_eq!(color.to_hex(), "#ff0000");
    assert!(!color.is_transparent());
}

#[test]
fn test_transparent_pixel() {
    let transparent = PixelColor::new(0, 0, 0, 0);
    assert!(transparent.is_transparent());
}

#[test]
fn test_valid_position() {
    let mut state = PixelChainState::new();
    state.initialize(100, 50);

    assert!(state.is_valid_position(0, 0));
    assert!(state.is_valid_position(99, 49));
    assert!(!state.is_valid_position(100, 50));
    assert!(!state.is_valid_position(200, 100));
}

#[test]
fn test_set_pixel_operation() {
    let initialization = CanvasInitialization { width: 100, height: 100 };
    let mut state = PixelChainState::new();
    state.initialize(initialization.width, initialization.height);

    let x = 50;
    let y = 25;
    let color = PixelColor::new(255, 0, 0, 255);
    let chain = ChainId { value: 7 };

    let outcome = state.execute_set_pixel(x, y, color, chain, 1000);
    assert_eq!(outcome.event, Event::PixelChanged { x, y, color });
    assert!(outcome.notification.is_none());
    assert_eq!(state.colored_pixel_count, 1);
    let stored = state.pixels.get(&Position { x, y }).unwrap();
    assert_eq!(stored.color, Some(color));
    assert_eq!(stored.owner, Some(chain));
}

#[test]
fn test_clear_pixel_operation() {
    let initialization = CanvasInitialization { width: 100, height: 100 };
    let mut state = PixelChainState::new();
    state.initialize(initialization.width, initialization.height);

    let x = 50;
    let y = 25;
    let color = PixelColor::new(255, 0, 0, 255);
    let chain = ChainId { value: 7 };

    state.execute_set_pixel(x, y, color, chain, 1000);
    assert_eq!(state.colored_pixel_count, 1);

    let event = state.execute_clear_pixel(x, y, chain, 2000);
    assert_eq!(event, Event::PixelCleared { x, y });
    assert_eq!(state.colored_pixel_count, 0);
    let stored = state.pixels.get(&Position { x, y }).unwrap();
    assert_eq!(stored.color, None);
    assert_eq!(stored.owner, Some(chain));
    assert_eq!(
        state.canvas_stats.transparent_pixels,
        state.canvas_stats.total_pixels
    );
}

#[test]
fn test_batch_set_pixels() {
    let initialization = CanvasInitialization { width: 100, height: 100 };
    let mut state = PixelChainState::new();
    state.initialize(initialization.width, initialization.height);

    let pixels = vec![
        quiz::pixel_abi::PixelUpdate { x: 0, y: 0, color: PixelColor::new(255, 0, 0, 255) },
        quiz::pixel_abi::PixelUpdate { x: 1, y: 0, color: PixelColor::new(0, 255, 0, 255) },
        quiz::pixel_abi::PixelUpdate { x: 2, y: 0, color: PixelColor::new(0, 0, 255, 255) },
    ];

    let chain = ChainId { value: 3 };
    let outcome = state.execute_set_pixels(&pixels, chain, 500);
    assert_eq!(outcome.event, Event::BatchUpdate { count: 3 });
    assert!(outcome.notifications.is_empty());
    assert_eq!(state.colored_pixel_count, 3);
    assert_eq!(state.pixel_updates.len(), 3);
}

#[test]
fn test_batch_notifies_prior_owners() {
    // cells owned by another context yield one notice each; a cell the batch
    // itself just took over yields none on the second write
    let mut state = PixelChainState::new();
    state.initialize(10, 10);
    let a = ChainId { value: 1 };
    let b = ChainId { value: 2 };
    let red = PixelColor::new(255, 0, 0, 255);
    let blue = PixelColor::new(0, 0, 255, 255);

    state.execute_set_pixel(1, 1, red, a, 10);
    state.execute_set_pixel(2, 2, red, a, 20);

    let pixels = vec![
        quiz::pixel_abi::PixelUpdate { x: 1, y: 1, color: blue },
        quiz::pixel_abi::PixelUpdate { x: 1, y: 1, color: blue },
        quiz::pixel_abi::PixelUpdate { x: 2, y: 2, color: blue },
        quiz::pixel_abi::PixelUpdate { x: 3, y: 3, color: blue },
    ];
    let outcome = state.execute_set_pixels(&pixels, b, 500);
    assert_eq!(outcome.event, Event::BatchUpdate { count: 4 });
    assert_eq!(outcome.notifications.len(), 2);
    assert_eq!(outcome.notifications[0].0, a);
    assert_eq!(
        outcome.notifications[0].1,
        Message::PixelModified { x: 1, y: 1, new_color: Some(blue), modified_by: b, timestamp: 500 }
    );
    assert_eq!(outcome.notifications[1].0, a);
    assert_eq!(
        outcome.notifications[1].1,
        Message::PixelModified { x: 2, y: 2, new_color: Some(blue), modified_by: b, timestamp: 500 }
    );
}

#[test]
fn test_cross_context_modification_notice() {
    // Canvas 10 by 10: context A paints a cell red, context B paints it blue;
    // the cell is then owned by B and A is told the new color.
    let mut state = PixelChainState::new();
    state.initialize(10, 10);
    let a = ChainId { value: 1 };
    let b = ChainId { value: 2 };
    let red = PixelColor::new(255, 0, 0, 255);
    let blue = PixelColor::new(0, 0, 255, 255);

    let first = state.execute_set_pixel(5, 5, red, a, 100);
    assert!(first.notification.is_none());

    let second = state.execute_set_pixel(5, 5, blue, b, 200);
    let stored = state.pixels.get(&Position { x: 5, y: 5 }).unwrap();
    assert_eq!(stored.owner, Some(b));
    assert_eq!(stored.color, Some(blue));
    let (target, message) = second.notification.expect("previous owner must be notified");
    assert_eq!(target, a);
    assert_eq!(
        message,
        Message::PixelModified { x: 5, y: 5, new_color: Some(blue), modified_by: b, timestamp: 200 }
    );
}

#[test]
fn test_ownership_claim_idempotent() {
    // A claim on an unclaimed cell grants ownership; an immediate second
    // claim by the same requester changes nothing and both claims are logged.
    let mut state = PixelChainState::new();
    state.initialize(10, 10);
    let requester = ChainId { value: 9 };

    let first = state.handle_ownership_claim(3, 4, requester, 100, 150);
    let (target, reply) = first.reply.expect("claim must be answered");
    assert_eq!(target, requester);
    assert_eq!(
        reply,
        Message::OwnershipClaim { x: 3, y: 4, requested_by: requester, timestamp: 150 }
    );
    assert!(first.event.is_some());
    let owner_after_first = state.pixels.get(&Position { x: 3, y: 4 }).unwrap().owner;

    let second = state.handle_ownership_claim(3, 4, requester, 200, 250);
    let (_, echo) = second.reply.expect("re-claim must be answered");
    assert_eq!(
        echo,
        Message::OwnershipClaim { x: 3, y: 4, requested_by: requester, timestamp: 250 }
    );
    assert!(second.event.is_none());
    assert_eq!(state.pixels.get(&Position { x: 3, y: 4 }).unwrap().owner, owner_after_first);
    assert_eq!(state.cross_chain_notifications.len(), 2);
    assert!(!state.cross_chain_notifications[0].processed);
    assert!(!state.cross_chain_notifications[1].processed);
    assert_eq!(state.cross_chain_notifications[0].notification_type, "ownership_claim");
    assert_eq!(state.cross_chain_notifications[1].notification_type, "ownership_claim");
}

#[test]
fn test_claim_on_owned_cell_reports_state() {
    let mut state = PixelChainState::new();
    state.initialize(10, 10);
    let owner = ChainId { value: 1 };
    let rival = ChainId { value: 2 };
    let green = PixelColor::new(0, 255, 0, 255);
    state.execute_set_pixel(2, 2, green, owner, 100);

    let outcome = state.handle_ownership_claim(2, 2, rival, 300, 350);
    let (target, reply) = outcome.reply.expect("claim must be answered");
    assert_eq!(target, rival);
    assert_eq!(
        reply,
        Message::PixelModified { x: 2, y: 2, new_color: Some(green), modified_by: owner, timestamp: 100 }
    );
    assert_eq!(state.pixels.get(&Position { x: 2, y: 2 }).unwrap().owner, Some(owner));
}

#[test]
fn test_notification_system() {
    let mut state = PixelChainState::new();
    state.initialize(100, 100);

    let (unprocessed, processed) = state.get_notification_stats();
    assert_eq!(unprocessed, 0);
    assert_eq!(processed, 0);

    let unprocessed_notifications = state.get_unprocessed_notifications();
    assert_eq!(unprocessed_notifications.len(), 0);
}

#[test]
fn test_notification_processing() {
    let mut state = PixelChainState::new();
    state.initialize(100, 100);
    let sender = ChainId { value: 5 };
    state.handle_pixel_modification_notification(1, 2, None, sender, 100);
    state.handle_pixel_modification_notification(3, 4, Some(PixelColor::new(9, 9, 9, 255)), sender, 200);

    assert_eq!(state.get_notification_stats(), (2, 0));
    assert_eq!(state.mark_notification_processed(0), Ok(()));
    assert_eq!(state.get_notification_stats(), (1, 1));
    assert_eq!(state.mark_notification_processed(5), Err(NotificationError::NotFound));
    state.mark_all_notifications_processed();
    assert_eq!(state.get_notification_stats(), (0, 2));
    let unprocessed = state.get_unprocessed_notifications();
    assert_eq!(unprocessed.len(), 0);
}

#[test]
fn test_notification_cleanup() {
    let mut state = PixelChainState::new();
    state.initialize(100, 100);

    state.cleanup_old_notifications();

    let (unprocessed, processed) = state.get_notification_stats();
    assert_eq!(unprocessed, 0);
    assert_eq!(processed, 0);
}

#[test]
fn test_canvas_statistics() {
    let mut state = PixelChainState::new();
    state.initialize(200, 200);

    let stats = state.get_canvas_stats();
    assert_eq!(stats.total_pixels, 40000);
    assert_eq!(stats.colored_pixels, 0);
    assert_eq!(stats.transparent_pixels, 40000);
    assert_eq!(stats.unique_colors, 0);
    assert_eq!(state.get_canvas_dimensions(), (200, 200));
}

#[test]
fn test_state_initialization() {
    let mut state = PixelChainState::new();
    state.initialize(100, 50);

    assert_eq!(state.canvas_width, 100);
    assert_eq!(state.canvas_height, 50);
    assert_eq!(state.colored_pixel_count, 0);

    let stats = &state.canvas_stats;
    assert_eq!(stats.total_pixels, 5000);
    assert_eq!(stats.colored_pixels, 0);
    assert_eq!(stats.transparent_pixels, 5000);
}

#[test]
fn test_position_serialization() {
    let pos1 = Position { x: 10, y: 20 };
    let pos2 = Position { x: 10, y: 20 };
    let pos3 = Position { x: 15, y: 25 };

    assert_eq!(pos1, pos2);
    assert_ne!(pos1, pos3);

    let serialized = pos1.to_custom_bytes();
    let deserialized = Position::from_custom_bytes(&serialized).unwrap();
    assert_eq!(pos1, deserialized);
    assert_eq!(Position::from_custom_bytes(&[1, 2, 3]), None);
}

#[test]
fn test_cross_chain_message_creation() {
    let pixel_modified_msg = Message::PixelModified {
        x: 10,
        y: 20,
        new_color: Some(PixelColor { red: 255, green: 0, blue: 0, alpha: 255 }),
        modified_by: ChainId { value: 0 },
        timestamp: 1234567890,
    };

    let batch_pixel_modified_msg = Message::BatchPixelModified {
        pixels: vec![
            quiz::pixel_abi::PixelModification {
                x: 5,
                y: 10,
                new_color: Some(PixelColor { red: 0, green: 255, blue: 0, alpha: 255 }),
                previous_color: None,
            },
            quiz::pixel_abi::PixelModification {
                x: 15,
                y: 25,
                new_color: Some(PixelColor { red: 0, green: 0, blue: 255, alpha: 255 }),
                previous_color: None,
            },
        ],
        modified_by: ChainId { value: 1 },
        timestamp: 1234567891,
    };

    let ownership_claim_msg = Message::OwnershipClaim {
        x: 30,
        y: 40,
        requested_by: ChainId { value: 2 },
        timestamp: 1234567892,
    };

    assert_eq!(pixel_modified_msg, pixel_modified_msg);
    assert_eq!(batch_pixel_modified_msg, batch_pixel_modified_msg);
    assert_eq!(ownership_claim_msg, ownership_claim_msg);
}

#[test]
fn test_pixel_color_operations() {
    let red = PixelColor { red: 255, green: 0, blue: 0, alpha: 255 };
    let green = PixelColor { red: 0, green: 255, blue: 0, alpha: 255 };
    let blue = PixelColor { red: 0, green: 0, blue: 255, alpha: 255 };

    assert!(!red.is_transparent());
    assert!(!green.is_transparent());
    assert!(!blue.is_transparent());

    let transparent = PixelColor { red: 0, green: 0, blue: 0, alpha: 0 };
    assert!(transparent.is_transparent());
}

#[test]
fn test_basic_canvas_operations() {
    let mut state = PixelChainState::new();
    state.initialize(100, 100);

    assert_eq!(state.canvas_width, 100);
    assert_eq!(state.canvas_height, 100);
}

#[test]
fn test_pixel_operations() {
    let mut state = PixelChainState::new();
    state.initialize(50, 50);

    assert!(state.is_valid_position(0, 0));
    assert!(state.is_valid_position(49, 49));
    assert!(!state.is_valid_position(50, 50));
    assert!(!state.is_valid_position(100, 100));
}

#[test]
fn test_pixel_projections() {
    let mut state = PixelChainState::new();
    state.initialize(10, 10);
    let chain = ChainId { value: 1 };
    let red = PixelColor::new(255, 0, 0, 255);
    let blue = PixelColor::new(0, 0, 255, 255);

    state.execute_set_pixel(1, 1, red, chain, 10);
    state.execute_set_pixel(2, 2, blue, chain, 20);
    state.execute_set_pixel(3, 3, red, chain, 30);

    assert_eq!(state.pixel(1, 1).unwrap().color, Some(red));
    assert!(state.pixel(9, 9).is_none());

    // the same color twice is reported once
    let colors = state.unique_colors();
    assert_eq!(colors, vec![red, blue]);

    // the last two updates, oldest first
    let recent = state.recent_updates(Some(2));
    assert_eq!(recent.len(), 2);
    assert_eq!((recent[0].x, recent[0].y), (2, 2));
    assert_eq!((recent[1].x, recent[1].y), (3, 3));
    // without a limit, up to ten
    assert_eq!(state.recent_updates(None).len(), 3);

    let stats = state.notification_stats();
    assert_eq!(stats.unprocessed_count, 0);
    assert_eq!(stats.processed_count, 0);
}

#[test]
fn test_pixels_in_area() {
    let mut state = PixelChainState::new();
    state.initialize(10, 10);
    let chain = ChainId { value: 1 };
    let red = PixelColor::new(255, 0, 0, 255);

    state.execute_set_pixel(1, 1, red, chain, 10);
    state.execute_set_pixel(2, 3, red, chain, 20);
    state.execute_set_pixel(8, 8, red, chain, 30);

    let area = CanvasBounds { x: 0, y: 0, width: 5, height: 5 };
    let inside = state.pixels_in_area(area);
    assert_eq!(inside.len(), 2);
    assert_eq!((inside[0].x, inside[0].y), (1, 1));
    assert_eq!((inside[1].x, inside[1].y), (2, 3));

    let empty = state.pixels_in_area(CanvasBounds { x: 4, y: 4, width: 2, height: 2 });
    assert_eq!(empty.len(), 0);
}
