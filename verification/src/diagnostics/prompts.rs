//! The texts that the language model is given.

use vstd::prelude::*;

verus! {

/// The list of channels.
pub const SCREEN_HOME: &'static str = "Screen: Channel List (home). Shows the user's channels with voice status indicators.\n\
Common issues: channels not loading, voice status badges stuck/wrong, invite codes not \
working, channel creation failing, UI not refreshing after actions.\n\
Ask about: which channel, what action they tried, whether the list loaded at all, whether \
they see stale data or an error message.";

/// The setup of a device.
pub const SCREEN_SETUP: &'static str = "Screen: Device Setup (first launch). User enters server URL and registers a new device.\n\
Common issues: server URL rejected, registration failing, TLS errors, connection timeouts.\n\
Ask about: the server URL they entered, whether they see a specific error, whether this is \
a fresh install or reinstall, their network environment (VPN, proxy).";

/// The login.
pub const SCREEN_LOGIN: &'static str = "Screen: Login (existing device). User logs in with existing credentials.\n\
Common issues: login rejected, token errors, server unreachable.\n\
Ask about: whether they previously registered, the error message shown, whether they \
changed servers or reinstalled.";

/// The recovery of an account.
pub const SCREEN_RECOVER: &'static str = "Screen: Account Recovery. User recovers access via their recovery phrase.\n\
Common issues: phrase not accepted, recovery ID forgotten, rate limiting.\n\
Ask about: whether they're sure of the phrase, how many attempts they've made, whether they \
see a rate limit or generic error.";

/// The pairing of a device.
pub const SCREEN_PAIR: &'static str = "Screen: Device Pairing. User pairs a new device via QR code or pairing code.\n\
Common issues: code expired, approval not received, pairing timeout.\n\
Ask about: which step failed (code entry, waiting for approval, finishing), whether the \
approving device is online, how long they waited.";

/// The settings.
pub const SCREEN_SETTINGS: &'static str = "Screen: Settings. Audio device selection, TLS toggle, denoise toggle, hotkeys.\n\
Common issues: audio device not listed, settings not persisting, denoise toggle not \
working, hotkey conflicts.\n\
Ask about: which setting they changed, whether it reverts on restart, their OS and audio \
setup (external mic, headset, etc.).";

/// The devices.
pub const SCREEN_DEVICES: &'static str = "Screen: Device Management. Lists registered devices, allows revoking.\n\
Common issues: device list not loading, revoke not working, stale device entries.\n\
Ask about: which device they tried to revoke, whether the list loaded, whether they see an \
error or nothing happens.";

/// The recovery phrase.
pub const SCREEN_PHRASE: &'static str = "Screen: Change Recovery Phrase. User updates their recovery phrase.\n\
Common issues: old phrase not accepted, new phrase rejected, save failing.\n\
Ask about: whether the old phrase verification passed, the error shown, whether they're on \
the correct account.";

/// A voice room.
pub const SCREEN_ROOM: &'static str = "Screen: Active Voice Room (SFU). Live voice session with participants, chat, screen share.\n\
Common issues: no audio (can't hear or be heard), echo/feedback, high latency, participants \
not appearing, chat messages not sending, screen share not starting, getting kicked \
unexpectedly, reconnection loops, mute/deafen not working.\n\
Ask about: whether they can hear others or only can't be heard (one-way audio), how many \
participants are in the room, whether the issue started suddenly or from join, their audio \
device (headset vs speakers), whether denoise is on, whether they see any status indicator \
(LIVE, RECONNECTING, FAILED).";

/// A shared screen.
pub const SCREEN_SHARE: &'static str = "Screen: Screen Share viewer/overlay. Displays shared screens from other participants.\n\
Common issues: black screen, stream not appearing, lag/stuttering, window not closing, \
resolution too low, audio from share missing.\n\
Ask about: whether they see a black rectangle or nothing at all, whether the sharer's \
stream was working before, their platform (Linux has different capture).";

/// The choice of what to share.
pub const SCREEN_SHARE_PICKER: &'static str = "Screen: Share Picker. User selects which screen/window to share.\n\
Common issues: no sources listed, wrong preview, picker not closing after selection, \
permission denied.\n\
Ask about: their OS, whether they see any sources at all, whether they granted screen \
capture permission.";

/// One channel.
pub const SCREEN_CHANNEL: &'static str = "Screen: Channel Detail. Shows a single channel's members, roles, invites, and voice status.\n\
Common issues: member list not loading, role changes not applying, invite generation \
failing, ban not working, voice join button not responding, stale participant count.\n\
Ask about: which action failed (invite, ban, role change, voice join), their role in the \
channel (owner, admin, member), the error message shown.";

/// Any other screen.
pub const SCREEN_UNKNOWN: &'static str = "Screen: Unknown or navigation in progress.\n\
Ask about: what they were trying to do, which screen they expected to be on, whether they \
navigated from another screen.";

/// What stands before the description.
pub const ANALYSIS_INTRO: &'static str = "You are a bug report assistant for Wavis, a desktop voice chat application.\n\n\
The user encountered a bug and provided this description:\n\
\"";

/// What stands between the description and the context.
pub const ANALYSIS_CONTEXT: &'static str = "\"\n\n\
Here is the captured diagnostic context:\n";

/// What stands between the context and the screen.
pub const ANALYSIS_SCREEN: &'static str = "\n\n\
## Screen Context\n";

/// What stands behind the screen.
pub const ANALYSIS_RULES: &'static str = "\n\n\
Use the screen context above to guide your follow-up questions. Prioritize questions \
relevant to the specific screen and its common failure modes. Don't ask about features \
unrelated to this screen.\n\n\
## Log Source Guide\n\
- Console Logs: JS-side events — API errors, React warnings, navigation, auth token refresh \
failures.\n\
- Rust Logs: native layer — Tauri IPC calls, audio device errors, LiveKit SDK events, \
screen capture.\n\
- WS Messages: signaling traffic — join/leave, offers/answers, ICE candidates, kicks, \
mutes, chat, errors.\n\
Look for error/warn lines, repeated reconnect attempts, or timeout patterns. If logs \
suggest a specific subsystem failure, tailor your questions to that subsystem.\n\n\
Please respond with valid JSON only (no markdown fences). The JSON must have this shape:\n\
{\n  \
\"category\": \"<one of: audio, ui, connectivity, crash, performance, other>\",\n  \
\"questions\": [\n    \
{ \"text\": \"<question>\", \"options\": [\"<opt1>\", \"<opt2>\", \"<opt3>\"] },\n    \
{ \"text\": \"<open-ended question when options are not practical>\" }\n  \
],\n  \
\"needsFollowUp\": <true if a second round of questions would help, false otherwise>\n\
}\n\n\
Rules for questions:\n\
- Generate 3 to 5 follow-up questions to help diagnose the issue.\n\
- Most questions (at least 3) MUST include an \\\"options\\\" array with 2–4 short choices.\n\
- Only omit \\\"options\\\" for questions where free text is essential (e.g. copying an \
error message).\n\
- Keep option labels short (under 8 words each).";

/// What stands before the answers of an earlier round.
pub const ANALYSIS_ANSWERED: &'static str = "\n\n\
The user already answered these follow-up questions:\n";

/// What stands behind them.
pub const ANALYSIS_FINAL: &'static str = "\n\n\
Based on these answers, provide additional follow-up questions if needed. Set needsFollowUp \
to false (this is the final round).";

/// What stands before the category.
pub const ISSUE_INTRO: &'static str = "You are a bug report formatter for Wavis, a desktop voice chat application.\n\n\
Generate a structured GitHub issue body. Respond with valid JSON only (no markdown fences):\n\
{\n  \
\"title\": \"<concise bug title>\",\n  \
\"body\": \"<full markdown issue body>\"\n\
}\n\n\
The issue body must contain these sections:\n\
1. ## Bug Report header\n\
2. ### Category — \"";

/// What stands between the category and the description.
pub const ISSUE_SECTIONS: &'static str = "\"\n\
3. ### Description — the user's description\n\
4. ### Follow-Up Answers — the Q&A rounds (if any)\n\
5. <details><summary>Diagnostics</summary> — collapsible diagnostics section\n\n\
User description: \"";

/// What stands between the description and the category.
pub const ISSUE_CATEGORY: &'static str = "\"\n\
Category: ";

/// What stands between the category and the answers.
pub const ISSUE_ANSWERS: &'static str = "\n\n\
Follow-up Q&A:\n";

/// What stands between the answers and the diagnostics.
pub const ISSUE_DIAGNOSTICS: &'static str = "\n\n\
Diagnostics:\n";

} // verus!
