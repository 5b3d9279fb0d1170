use wsl_interop::desktop_image_media::{
    prefer_inline_images, prepare_generated_images, uses_inline_images, ClientResponsePayload,
    ConnectionOrigin, ConnectionSessionState, ImageGenerationItem, ItemCompletedNotification,
    OutgoingMessage, OutgoingResponse, ServerNotification, ServerNotificationEnvelope, Thread,
    ThreadItem, ThreadItemEntry, ThreadItemsListResponse, ThreadResponse, ThreadTimelineEntry,
    ThreadTimelineListResponse, Turn, TurnNotification,
};
use wsl_interop::json::RequestId;

#[test]
fn inline_media_is_scoped_to_local_wsl_desktop() {
    assert!(uses_inline_images(
        ConnectionOrigin::Stdio,
        Some("Codex Desktop"),
        Some("NixOS")
    ));
    assert!(!uses_inline_images(
        ConnectionOrigin::Stdio,
        Some("other-client"),
        Some("NixOS")
    ));
    assert!(!uses_inline_images(
        ConnectionOrigin::InProcess,
        Some("Codex Desktop"),
        Some("NixOS")
    ));
    assert!(!uses_inline_images(
        ConnectionOrigin::Stdio,
        Some("Codex Desktop"),
        None
    ));
    assert!(!uses_inline_images(
        ConnectionOrigin::Stdio,
        Some("Codex Desktop"),
        Some("")
    ));
}

fn generated_image() -> ThreadItem {
    ThreadItem::ImageGeneration(ImageGenerationItem {
        id: "image-1".to_string(),
        status: "completed".to_string(),
        revised_prompt: Some("A square".to_string()),
        result: "iVBORw0KGgoAAAANSUhEUgAAAAEAAAABCAQAAAC1HAwCAAAAC0lEQVR42mP8/x8AAwMCAO+jRZkAAAAASUVORK5CYII=".to_string(),
        transparent_background: None,
        failure: None,
        saved_path: Some("/tmp/generated.png".to_string()),
        imagegen_request_id: None,
        generation_id: None,
    })
}

fn without_saved_path(item: ThreadItem) -> ThreadItem {
    match item {
        ThreadItem::ImageGeneration(mut image) => {
            image.saved_path = None;
            ThreadItem::ImageGeneration(image)
        }
        other => other,
    }
}

fn completed_notification(item: ThreadItem) -> OutgoingMessage {
    OutgoingMessage::AppServerNotification(ServerNotificationEnvelope {
        notification: ServerNotification::ItemCompleted(ItemCompletedNotification {
            thread_id: "thread-1".to_string(),
            turn_id: "turn-1".to_string(),
            item,
            completed_at_ms: 1,
        }),
        emitted_at_ms: Some(1),
    })
}

fn items_page(item: ThreadItem) -> OutgoingMessage {
    OutgoingMessage::Response(OutgoingResponse {
        id: RequestId::Integer(1),
        result: Box::new(ClientResponsePayload::ThreadItemsList(ThreadItemsListResponse {
            data: vec![ThreadItemEntry {
                turn_id: "turn-1".to_string(),
                item,
            }],
            next_cursor: None,
            backwards_cursor: None,
        })),
    })
}

#[test]
fn live_image_uses_inline_result_without_changing_source_item() {
    let source = generated_image();
    let original = source.clone();
    let mut notification = completed_notification(source.clone());
    let expected = completed_notification(without_saved_path(source.clone()));

    prefer_inline_images(&mut notification);

    assert_eq!(notification, expected);
    assert_eq!(source, original);
}

#[test]
fn reopened_image_page_uses_inline_result() {
    let mut message = items_page(generated_image());
    let expected = items_page(without_saved_path(generated_image()));

    prefer_inline_images(&mut message);

    assert_eq!(message, expected);
}

#[test]
fn image_without_inline_data_retains_its_only_source() {
    let mut image = generated_image();
    if let ThreadItem::ImageGeneration(image) = &mut image {
        image.result.clear();
    }
    let mut message = completed_notification(image);
    let expected = message.clone();
    prefer_inline_images(&mut message);
    assert_eq!(message, expected);
}

#[test]
fn uninitialized_and_non_stdio_connections_keep_native_paths() {
    for origin in [ConnectionOrigin::Stdio, ConnectionOrigin::InProcess] {
        let session = ConnectionSessionState::new(origin);
        let mut message = completed_notification(generated_image());
        let expected = message.clone();
        prepare_generated_images(&mut message, &session, Some("NixOS"));
        assert_eq!(message, expected);
    }
}

fn turn_with(item: ThreadItem) -> Turn {
    Turn {
        id: "turn-1".to_string(),
        items: vec![
            ThreadItem::UserMessage {
                id: "m".to_string(),
                text: "draw".to_string(),
            },
            item,
        ],
    }
}

#[test]
fn initialized_desktop_connection_gets_inline_images() {
    let mut session = ConnectionSessionState::new(ConnectionOrigin::Stdio);
    session.initialize("Codex Desktop".to_string());
    let mut message = completed_notification(generated_image());
    prepare_generated_images(&mut message, &session, Some("NixOS"));
    assert_eq!(
        message,
        completed_notification(without_saved_path(generated_image()))
    );

    let mut elsewhere = completed_notification(generated_image());
    prepare_generated_images(&mut elsewhere, &session, None);
    assert_eq!(elsewhere, completed_notification(generated_image()));
}

#[test]
fn thread_and_turn_messages_clear_saved_paths_in_every_turn() {
    let thread = |item: ThreadItem| Thread {
        id: "thread-1".to_string(),
        turns: vec![turn_with(item.clone()), turn_with(item)],
    };
    let mut started = OutgoingMessage::Response(OutgoingResponse {
        id: RequestId::String("r".to_string()),
        result: Box::new(ClientResponsePayload::ThreadRead(ThreadResponse {
            thread: thread(generated_image()),
        })),
    });
    prefer_inline_images(&mut started);
    assert_eq!(
        started,
        OutgoingMessage::Response(OutgoingResponse {
            id: RequestId::String("r".to_string()),
            result: Box::new(ClientResponsePayload::ThreadRead(ThreadResponse {
                thread: thread(without_saved_path(generated_image())),
            })),
        })
    );

    let turn_message = |item: ThreadItem| {
        OutgoingMessage::AppServerNotification(ServerNotificationEnvelope {
            notification: ServerNotification::TurnCompleted(TurnNotification {
                thread_id: "thread-1".to_string(),
                turn: turn_with(item),
            }),
            emitted_at_ms: None,
        })
    };
    let mut completed = turn_message(generated_image());
    prefer_inline_images(&mut completed);
    assert_eq!(completed, turn_message(without_saved_path(generated_image())));
}

#[test]
fn timeline_pages_clear_saved_paths_and_keep_boundaries() {
    let page = |item: ThreadItem| {
        OutgoingMessage::Response(OutgoingResponse {
            id: RequestId::Integer(7),
            result: Box::new(ClientResponsePayload::ThreadTimelineList(
                ThreadTimelineListResponse {
                    data: vec![
                        ThreadTimelineEntry::TurnBoundary {
                            turn_id: "turn-1".to_string(),
                        },
                        ThreadTimelineEntry::Item {
                            turn_id: "turn-1".to_string(),
                            item,
                        },
                    ],
                    next_cursor: Some("next".to_string()),
                },
            )),
        })
    };
    let mut message = page(generated_image());
    prefer_inline_images(&mut message);
    assert_eq!(message, page(without_saved_path(generated_image())));
}

#[test]
fn preparing_twice_is_preparing_once() {
    let mut message = items_page(generated_image());
    prefer_inline_images(&mut message);
    let once = message.clone();
    prefer_inline_images(&mut message);
    assert_eq!(message, once);
}
