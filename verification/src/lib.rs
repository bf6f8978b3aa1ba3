//! The logic of an AI gateway that relays chat completions to several
//! providers (Google AI Studio, Vertex AI, Groq, OpenRouter), with its contracts.

pub mod api;
pub mod completion;
pub mod config;
pub mod error;
pub mod gemini;
pub mod google_ai_studio;
pub mod groq;
pub mod openrouter;
pub mod provider_id;
pub mod text;
pub mod upstream;
pub mod usecase;
pub mod vertex;
