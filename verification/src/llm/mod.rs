pub mod ollama;
