//! The short help of the bot, listing its commands and how to reach the
//! language model.
use vstd::prelude::*;

verus! {

/// The short help text.
pub open spec fn short_help_spec() -> Seq<char> {
    "**Meri Bot - Discord AI Assistant**\n\n**⚠️ AI features require `<@Meri_>` user ID mentions**\n\n**Basic Commands:**\n• `^ping` - Test connectivity • `^echo <text>` - Echo message\n• `^help` - Show help • `^ppfp @user` - Profile picture\n\n**AI Chat (Primary):**\n• `<@Meri_> <prompt>` - AI chat with memory\n• `<@Meri_> <prompt>` + files - Analyze documents/images\n• `<@Meri_> -v <prompt>` + image - Vision analysis\n• Reply to messages with `<@Meri_> <question>` for context\n• **Files:** PDF, TXT, MD, CSV, HTML, JSON, XML, JPG, PNG, GIF, WebP\n\n**Legacy Commands:**\n• `^lm <prompt>` - AI chat (aliases: `^llm`, `^ai`, `^chat`)\n• `^lm -s <query>` - Web search • `^lm -v <prompt>` - Vision\n• `^lm --test` - Test API • `^clearcontext` - Clear history\n\n• `^reason <question>` - Reasoning AI (DeepSeek R1)\n• `^reason -s <query>` - Reasoning search • `^reason --clear` - Clear\n\n• `^sum <url>` - Summarize webpages/YouTube videos\n• **Aliases:** `^summarize`, `^webpage`\n\n**Features:**\n• Real-time streaming • Per-user memory • Smart chunking\n• Document analysis • Context-aware replies • 60s timeout\n\n**Setup:** `botconfig.txt` (token), `lmapiconf.txt` (AI config), `yt-dlp`\n\n**Examples:**\n• `^ping` • `<@Meri_> Hello!` • `<@Meri_> -v What's this?` (with image)\n• `^lm -s rust tutorial` • `^reason Why is sky blue?` • `^sum <url>`\n\n**Full guide:** README.md"@
}

/// The short help text, shown by the plain `^help` command.
pub fn short_help_text() -> (m: String)
    ensures
        m@ == short_help_spec(),
{
    String::from_str("**Meri Bot - Discord AI Assistant**\n\n**⚠️ AI features require `<@Meri_>` user ID mentions**\n\n**Basic Commands:**\n• `^ping` - Test connectivity • `^echo <text>` - Echo message\n• `^help` - Show help • `^ppfp @user` - Profile picture\n\n**AI Chat (Primary):**\n• `<@Meri_> <prompt>` - AI chat with memory\n• `<@Meri_> <prompt>` + files - Analyze documents/images\n• `<@Meri_> -v <prompt>` + image - Vision analysis\n• Reply to messages with `<@Meri_> <question>` for context\n• **Files:** PDF, TXT, MD, CSV, HTML, JSON, XML, JPG, PNG, GIF, WebP\n\n**Legacy Commands:**\n• `^lm <prompt>` - AI chat (aliases: `^llm`, `^ai`, `^chat`)\n• `^lm -s <query>` - Web search • `^lm -v <prompt>` - Vision\n• `^lm --test` - Test API • `^clearcontext` - Clear history\n\n• `^reason <question>` - Reasoning AI (DeepSeek R1)\n• `^reason -s <query>` - Reasoning search • `^reason --clear` - Clear\n\n• `^sum <url>` - Summarize webpages/YouTube videos\n• **Aliases:** `^summarize`, `^webpage`\n\n**Features:**\n• Real-time streaming • Per-user memory • Smart chunking\n• Document analysis • Context-aware replies • 60s timeout\n\n**Setup:** `botconfig.txt` (token), `lmapiconf.txt` (AI config), `yt-dlp`\n\n**Examples:**\n• `^ping` • `<@Meri_> Hello!` • `<@Meri_> -v What's this?` (with image)\n• `^lm -s rust tutorial` • `^reason Why is sky blue?` • `^sum <url>`\n\n**Full guide:** README.md")
}

} // verus!
