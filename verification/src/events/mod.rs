pub mod track_error_notifier;
pub mod track_queue_event;
