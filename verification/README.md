# ai_gateway

An internal gateway that relays chat completion requests to several AI
providers (Google AI Studio and Vertex AI with the Gemini format, Groq and
OpenRouter with the OpenAI-compatible format) behind one API and one set of
API keys.

- `src/` is the library, verified with Verus: the request and response models,
  the conversion of a request into each provider's wire format (including the
  splitting of `data:` image URLs), the reading of each provider's answer, the
  routing of a request to its provider, the gateway's API key check, the
  mapping of errors to HTTP statuses, the provider listing and the parsing of
  the settings.
- `app/` is the server around it: environment, HTTP client calls, JSON
  (de)serialisation, axum routing, OpenAPI and Swagger UI, graceful shutdown.
- `tests/` exercise the library on concrete values.
